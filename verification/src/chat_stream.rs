use vstd::prelude::*;
use crate::json::{Json, get_str, json_as_array, json_as_str, json_as_u64, json_get};
use crate::models::{
    ContentItem, ContentItemView, ReasoningItemContent, ReasoningItemContentView, ResponseItem,
    ResponseItemView, content_view, opt_string_view, reasoning_content_view,
};
use crate::text::{owned, push_str, str_eq, str_trim, trim};
use crate::chat_request::{message_text, reasoning_text};
use std::collections::HashMap;

verus! {

broadcast use vstd::std_specs::hash::group_hash_axioms;

/// What the stream of a chat completion hands on: an event, or an error.
#[derive(Debug, PartialEq)]
pub enum ChatStreamOutput {
    OutputItemDone(ResponseItem),
    OutputTextDelta(String),
    ReasoningContentDelta { delta: String, content_index: u64 },
    Completed,
    StreamError(String),
    ContextWindowExceeded,
}

pub enum ChatStreamOutputView {
    OutputItemDone(ResponseItemView),
    OutputTextDelta(Seq<char>),
    ReasoningContentDelta { delta: Seq<char>, content_index: u64 },
    Completed,
    StreamError(Seq<char>),
    ContextWindowExceeded,
}

impl View for ChatStreamOutput {
    type V = ChatStreamOutputView;

    open spec fn view(&self) -> ChatStreamOutputView {
        match self {
            ChatStreamOutput::OutputItemDone(item) => ChatStreamOutputView::OutputItemDone(item@),
            ChatStreamOutput::OutputTextDelta(t) => ChatStreamOutputView::OutputTextDelta(t@),
            ChatStreamOutput::ReasoningContentDelta { delta, content_index } => ChatStreamOutputView::ReasoningContentDelta {
                delta: delta@,
                content_index: *content_index,
            },
            ChatStreamOutput::Completed => ChatStreamOutputView::Completed,
            ChatStreamOutput::StreamError(m) => ChatStreamOutputView::StreamError(m@),
            ChatStreamOutput::ContextWindowExceeded => ChatStreamOutputView::ContextWindowExceeded,
        }
    }
}

pub open spec fn outputs_view(o: Seq<ChatStreamOutput>) -> Seq<ChatStreamOutputView> {
    o.map_values(|x: ChatStreamOutput| x@)
}

/// A tool call being assembled from the stream.
#[derive(Debug, PartialEq)]
pub struct ToolCallState {
    pub id: Option<String>,
    pub name: Option<String>,
    pub arguments: String,
}

pub struct ToolCallStateView {
    pub id: Option<Seq<char>>,
    pub name: Option<Seq<char>>,
    pub arguments: Seq<char>,
}

impl View for ToolCallState {
    type V = ToolCallStateView;

    open spec fn view(&self) -> ToolCallStateView {
        ToolCallStateView {
            id: opt_string_view(self.id),
            name: opt_string_view(self.name),
            arguments: self.arguments@,
        }
    }
}

/// The state of one chat completion stream.
///
/// `tool_calls` holds the tool calls being assembled, by their index, and
/// `tool_call_order` their indices in the order in which they were first
/// seen; `index_by_id` the index first given to each call id.
pub struct ChatSseState {
    tool_calls: HashMap<u64, ToolCallState>,
    tool_call_order: Vec<u64>,
    index_by_id: Vec<(String, u64)>,
    next_tool_call_index: u64,
    last_tool_call_index: Option<u64>,
    assistant_item: Option<ResponseItem>,
    reasoning_item: Option<ResponseItem>,
    completed_sent: bool,
}

pub struct ChatSseStateView {
    pub pending: Seq<(u64, ToolCallStateView)>,
    pub index_by_id: Seq<(Seq<char>, u64)>,
    pub next_tool_call_index: u64,
    pub last_tool_call_index: Option<u64>,
    pub assistant_item: Option<ResponseItemView>,
    pub reasoning_item: Option<ResponseItemView>,
    pub completed_sent: bool,
}

pub open spec fn opt_item_view(i: Option<ResponseItem>) -> Option<ResponseItemView> {
    match i {
        Some(x) => Some(x@),
        None => None,
    }
}

/// The pending tool calls, in the order in which their indices were first seen.
pub open spec fn ordered_pending(order: Seq<u64>, calls: Map<u64, ToolCallState>) -> Seq<(u64, ToolCallStateView)> {
    order.map_values(|k: u64| (k, calls[k]@))
}

pub open spec fn ids_view(p: Seq<(String, u64)>) -> Seq<(Seq<char>, u64)> {
    p.map_values(|e: (String, u64)| (e.0@, e.1))
}

impl View for ChatSseState {
    type V = ChatSseStateView;

    closed spec fn view(&self) -> ChatSseStateView {
        ChatSseStateView {
            pending: ordered_pending(self.tool_call_order@, self.tool_calls@),
            index_by_id: ids_view(self.index_by_id@),
            next_tool_call_index: self.next_tool_call_index,
            last_tool_call_index: self.last_tool_call_index,
            assistant_item: opt_item_view(self.assistant_item),
            reasoning_item: opt_item_view(self.reasoning_item),
            completed_sent: self.completed_sent,
        }
    }
}

impl ChatSseState {
    /// Well-formed: the view is, and the map of tool calls holds exactly the
    /// indices of the order.
    pub closed spec fn wf(&self) -> bool {
        &&& state_wf(self@)
        &&& forall|k: u64| #[trigger] self.tool_calls@.contains_key(k) <==> self.tool_call_order@.contains(k)
    }
}

/// The indices of the ordered pending calls are the order itself.
proof fn lemma_ordered_keys(order: Seq<u64>, calls: Map<u64, ToolCallState>)
    ensures
        pending_keys(ordered_pending(order, calls)) == order,
{
    assert(pending_keys(ordered_pending(order, calls)) =~= order);
}

// ---------------------------------------------------------------------------
// The model of the stream.

/// The indices of the pending tool calls.
pub open spec fn pending_keys(p: Seq<(u64, ToolCallStateView)>) -> Seq<u64> {
    p.map_values(|e: (u64, ToolCallStateView)| e.0)
}

/// Well-formed: no two pending tool calls share an index, and no call id is
/// given two indices.
pub open spec fn state_wf(s: ChatSseStateView) -> bool {
    &&& pending_keys(s.pending).no_duplicates()
    &&& s.index_by_id.map_values(|e: (Seq<char>, u64)| e.0).no_duplicates()
}

/// The index first given to call id `id`.
pub open spec fn lookup_id(ids: Seq<(Seq<char>, u64)>, id: Seq<char>) -> Option<u64>
    decreases ids.len(),
{
    if ids.len() == 0 {
        None
    } else if ids[0].0 == id {
        Some(ids[0].1)
    } else {
        lookup_id(ids.drop_first(), id)
    }
}

/// The index after `k`, wrapping around.
pub open spec fn next_index(k: u64) -> u64 {
    if k == u64::MAX { 0 } else { (k + 1) as u64 }
}

/// The first index at or after `k` (wrapping around) that `keys` does not
/// hold, having looked at `steps` indices already.
pub open spec fn free_index_from(keys: Seq<u64>, k: u64, steps: nat) -> u64
    decreases 0x1_0000_0000_0000_0000 - steps when steps <= 0x1_0000_0000_0000_0000
{
    if steps >= 0x1_0000_0000_0000_0000 {
        k
    } else if !keys.contains(k) {
        k
    } else {
        free_index_from(keys, next_index(k), steps + 1)
    }
}

/// The first index at or after `start` (wrapping around) that `keys` does not hold.
pub open spec fn free_index(keys: Seq<u64>, start: u64) -> u64 {
    free_index_from(keys, start, 0)
}

/// A message's content with `text` added to its last output text, or as a
/// new output text.
pub open spec fn append_output_text(content: Seq<ContentItemView>, text: Seq<char>) -> Seq<ContentItemView> {
    if content.len() > 0 && content.last() is OutputText {
        content.update(content.len() - 1, ContentItemView::OutputText { text: content.last()->OutputText_text + text })
    } else {
        content.push(ContentItemView::OutputText { text })
    }
}

/// A reasoning content with `text` added to its last reasoning text, or as a
/// new reasoning text.
pub open spec fn append_reasoning_content(
    content: Seq<ReasoningItemContentView>,
    text: Seq<char>,
) -> Seq<ReasoningItemContentView> {
    if content.len() > 0 && content.last() is ReasoningText {
        content.update(
            content.len() - 1,
            ReasoningItemContentView::ReasoningText { text: content.last()->ReasoningText_text + text },
        )
    } else {
        content.push(ReasoningItemContentView::ReasoningText { text })
    }
}

/// The assistant message after `text` streamed in.
pub open spec fn appended_assistant(item: Option<ResponseItemView>, text: Seq<char>) -> ResponseItemView {
    let it = match item {
        Some(x) => x,
        None => ResponseItemView::Message { role: "assistant"@, content: Seq::empty() },
    };
    match it {
        ResponseItemView::Message { role, content } => ResponseItemView::Message {
            role,
            content: append_output_text(content, text),
        },
        other => other,
    }
}

/// The reasoning item after `text` streamed in.
pub open spec fn appended_reasoning(item: Option<ResponseItemView>, text: Seq<char>) -> ResponseItemView {
    let it = match item {
        Some(x) => x,
        None => ResponseItemView::Reasoning { content: Some(Seq::empty()) },
    };
    match it {
        ResponseItemView::Reasoning { content: Some(c) } => ResponseItemView::Reasoning {
            content: Some(append_reasoning_content(c, text)),
        },
        other => other,
    }
}

/// A state, the outputs handed on so far, and whether the stream has ended.
pub struct StreamStep {
    pub st: ChatSseStateView,
    pub out: Seq<ChatStreamOutputView>,
    pub stop: bool,
}

/// The step after assistant text `text` streamed in.
pub open spec fn step_assistant_text(s: StreamStep, text: Seq<char>) -> StreamStep {
    StreamStep {
        st: ChatSseStateView { assistant_item: Some(appended_assistant(s.st.assistant_item, text)), ..s.st },
        out: s.out.push(ChatStreamOutputView::OutputTextDelta(text)),
        ..s
    }
}

/// The step after reasoning text `text` streamed in.
pub open spec fn step_reasoning_text(s: StreamStep, text: Seq<char>) -> StreamStep {
    StreamStep {
        st: ChatSseStateView { reasoning_item: Some(appended_reasoning(s.st.reasoning_item, text)), ..s.st },
        out: s.out.push(ChatStreamOutputView::ReasoningContentDelta { delta: text, content_index: 0 }),
        ..s
    }
}

/// A tool call of which nothing has streamed in yet.
pub open spec fn empty_call() -> ToolCallStateView {
    ToolCallStateView { id: None, name: None, arguments: Seq::empty() }
}

/// The index that a tool call delta names: the index first given to its id,
/// else the index it gives; with neither id nor index, the last index used.
pub open spec fn chosen_index(st: ChatSseStateView, tc: Json) -> Option<u64> {
    let given = json_as_u64(json_get(tc, "index"@));
    match json_as_str(json_get(tc, "id"@)) {
        Some(i) => match lookup_id(st.index_by_id, i) {
            Some(e) => Some(e),
            None => given,
        },
        None => match given {
            Some(g) => Some(g),
            None => st.last_tool_call_index,
        },
    }
}

/// The position of the pending call with index `k`.
pub open spec fn key_position(p: Seq<(u64, ToolCallStateView)>, k: u64) -> int {
    choose|i: int| 0 <= i < p.len() && p[i].0 == k
}

/// The state after a tool call delta `tc`: the call it names (a fresh index
/// where it names none) takes its id and name where it has none yet, and its
/// arguments grow by the fragment.
pub open spec fn tool_call_step(st: ChatSseStateView, tc: Json) -> ChatSseStateView {
    let keys = pending_keys(st.pending);
    let index = match chosen_index(st, tc) {
        Some(i) => i,
        None => free_index(keys, st.next_tool_call_index),
    };
    let next = match chosen_index(st, tc) {
        Some(i) => st.next_tool_call_index,
        None => next_index(index),
    };
    let pending1 = if keys.contains(index) { st.pending } else { st.pending.push((index, empty_call())) };
    let pos = key_position(pending1, index);
    let cs = pending1[pos].1;
    let id = json_as_str(json_get(tc, "id"@));
    let f = json_get(tc, "function"@);
    let name = match f {
        Some(fv) => json_as_str(json_get(fv, "name"@)),
        None => None,
    };
    let args = match f {
        Some(fv) => json_as_str(json_get(fv, "arguments"@)),
        None => None,
    };
    let cs2 = ToolCallStateView {
        id: match cs.id {
            Some(x) => Some(x),
            None => id,
        },
        name: match name {
            Some(n) => if n.len() > 0 && cs.name is None { Some(n) } else { cs.name },
            None => cs.name,
        },
        arguments: match args {
            Some(a) => cs.arguments + a,
            None => cs.arguments,
        },
    };
    let ids1 = match id {
        Some(i) => if lookup_id(st.index_by_id, i) is None { st.index_by_id.push((i, index)) } else { st.index_by_id },
        None => st.index_by_id,
    };
    ChatSseStateView {
        pending: pending1.update(pos, (index, cs2)),
        index_by_id: ids1,
        next_tool_call_index: next,
        last_tool_call_index: Some(index),
        ..st
    }
}

/// The text that a reasoning value carries: the value itself where it is a
/// string, else its `text`, else its `content`.
pub open spec fn reasoning_delta(r: Json) -> Option<Seq<char>> {
    match json_as_str(Some(r)) {
        Some(t) => Some(t),
        None => match json_as_str(json_get(r, "text"@)) {
            Some(t) => Some(t),
            None => json_as_str(json_get(r, "content"@)),
        },
    }
}

/// The step after a reasoning value, where there is one.
pub open spec fn step_reasoning_value(s: StreamStep, r: Option<Json>) -> StreamStep {
    match r {
        Some(rv) => match reasoning_delta(rv) {
            Some(t) => step_reasoning_text(s, t),
            None => s,
        },
        None => s,
    }
}

/// The step after the first `n` content parts: each text streams in.
pub open spec fn content_items_upto(s: StreamStep, items: Seq<Json>, n: nat) -> StreamStep
    decreases n,
{
    if n == 0 {
        s
    } else {
        let p = content_items_upto(s, items, (n - 1) as nat);
        match json_as_str(json_get(items[n - 1], "text"@)) {
            Some(t) => step_assistant_text(p, t),
            None => p,
        }
    }
}

/// The step after a content value: a list of parts, or a string.
pub open spec fn step_content_value(s: StreamStep, c: Option<Json>) -> StreamStep {
    match c {
        Some(cv) => match json_as_array(Some(cv)) {
            Some(items) => content_items_upto(s, items, items.len()),
            None => match json_as_str(Some(cv)) {
                Some(t) => step_assistant_text(s, t),
                None => s,
            },
        },
        None => s,
    }
}

/// The state after the first `n` tool call deltas.
pub open spec fn tool_calls_upto(st: ChatSseStateView, calls: Seq<Json>, n: nat) -> ChatSseStateView
    decreases n,
{
    if n == 0 {
        st
    } else {
        tool_call_step(tool_calls_upto(st, calls, (n - 1) as nat), calls[n - 1])
    }
}

/// The step after a choice's delta: its reasoning, its content, its tool calls.
pub open spec fn step_delta(s: StreamStep, choice: Json) -> StreamStep {
    match json_get(choice, "delta"@) {
        Some(d) => {
            let s1 = step_reasoning_value(s, json_get(d, "reasoning"@));
            let s2 = step_content_value(s1, json_get(d, "content"@));
            match json_as_array(json_get(d, "tool_calls"@)) {
                Some(calls) => StreamStep { st: tool_calls_upto(s2.st, calls, calls.len()), ..s2 },
                None => s2,
            }
        },
        None => s,
    }
}

/// The step after a choice's complete message, whose reasoning streams in.
pub open spec fn step_message(s: StreamStep, choice: Json) -> StreamStep {
    match json_get(choice, "message"@) {
        Some(m) => step_reasoning_value(s, json_get(m, "reasoning"@)),
        None => s,
    }
}

/// `out` with `item` handed on as done, where there is one.
pub open spec fn emit_taken(out: Seq<ChatStreamOutputView>, item: Option<ResponseItemView>) -> Seq<ChatStreamOutputView> {
    match item {
        Some(i) => out.push(ChatStreamOutputView::OutputItemDone(i)),
        None => out,
    }
}

/// The call id of an assembled tool call: its own, else one made from its index.
pub open spec fn call_id_of(index: u64, id: Option<Seq<char>>) -> Seq<char> {
    match id {
        Some(i) => i,
        None => "tool-call-"@ + decimal(index as nat),
    }
}

/// The function calls that the pending tool calls become, in order; a call
/// with no name is dropped.
pub open spec fn drained_calls(p: Seq<(u64, ToolCallStateView)>) -> Seq<ChatStreamOutputView>
    decreases p.len(),
{
    if p.len() == 0 {
        Seq::empty()
    } else {
        let (index, call) = p.last();
        drained_calls(p.drop_last()) + match call.name {
            Some(n) => seq![
                ChatStreamOutputView::OutputItemDone(
                    ResponseItemView::FunctionCall { name: n, arguments: call.arguments, call_id: call_id_of(index, call.id) },
                ),
            ],
            None => Seq::empty(),
        }
    }
}

/// The step after a choice's finish reason: `stop` hands on the reasoning
/// and assistant items and, once, the completion; `length` ends the stream
/// with an error; `tool_calls` hands on the reasoning and the assembled calls.
pub open spec fn step_finish(s: StreamStep, choice: Json) -> StreamStep {
    let fr = json_as_str(json_get(choice, "finish_reason"@));
    if fr == Some("stop"@) {
        let out1 = emit_taken(emit_taken(s.out, s.st.reasoning_item), s.st.assistant_item);
        StreamStep {
            st: ChatSseStateView { reasoning_item: None, assistant_item: None, completed_sent: true, ..s.st },
            out: if s.st.completed_sent { out1 } else { out1.push(ChatStreamOutputView::Completed) },
            stop: false,
        }
    } else if fr == Some("length"@) {
        StreamStep { out: s.out.push(ChatStreamOutputView::ContextWindowExceeded), stop: true, ..s }
    } else if fr == Some("tool_calls"@) {
        StreamStep {
            st: ChatSseStateView { reasoning_item: None, pending: Seq::empty(), ..s.st },
            out: emit_taken(s.out, s.st.reasoning_item) + drained_calls(s.st.pending),
            ..s
        }
    } else {
        s
    }
}

/// The step after one choice of a chunk.
pub open spec fn choice_step(s: StreamStep, choice: Json) -> StreamStep {
    step_finish(step_message(step_delta(s, choice), choice), choice)
}

/// The step after the first `n` choices, stopping where the stream ends.
pub open spec fn choices_upto(s: StreamStep, choices: Seq<Json>, n: nat) -> StreamStep
    decreases n,
{
    if n == 0 {
        s
    } else {
        let p = choices_upto(s, choices, (n - 1) as nat);
        if p.stop { p } else { choice_step(p, choices[n - 1]) }
    }
}

/// The step after a chunk of the stream, parsed as JSON.
pub open spec fn payload_step(st: ChatSseStateView, value: Json) -> StreamStep {
    let s0 = StreamStep { st, out: Seq::empty(), stop: false };
    match json_as_array(json_get(value, "choices"@)) {
        Some(choices) => choices_upto(s0, choices, choices.len()),
        None => s0,
    }
}

/// What the end of the stream hands on: the reasoning and assistant items
/// and the completion, unless the completion was already handed on.
pub open spec fn end_outputs(st: ChatSseStateView) -> Seq<ChatStreamOutputView> {
    if st.completed_sent {
        Seq::empty()
    } else {
        emit_taken(emit_taken(Seq::empty(), st.reasoning_item), st.assistant_item).push(ChatStreamOutputView::Completed)
    }
}

// ---------------------------------------------------------------------------
// The pieces of the stream's state.

/// Adds `text` to the last output text of `content`, or as a new output text.
fn push_output_text(content: &mut Vec<ContentItem>, text: &str)
    ensures
        content_view(final(content)@) == append_output_text(content_view(old(content)@), text@),
{
    let ghost before = content@;
    match content.pop() {
        Some(ContentItem::OutputText { text: existing }) => {
            let mut joined = existing;
            push_str(&mut joined, text);
            content.push(ContentItem::OutputText { text: joined });
            proof {
                assert(content_view(before).last() == before.last()@);
                assert(content_view(content@) =~= append_output_text(content_view(before), text@));
            }
        },
        Some(other) => {
            content.push(other);
            content.push(ContentItem::OutputText { text: owned(text) });
            proof {
                assert(content@.drop_last() == before);
                assert(content_view(before).last() == before.last()@);
                assert(content_view(content@) =~= append_output_text(content_view(before), text@));
            }
        },
        None => {
            content.push(ContentItem::OutputText { text: owned(text) });
            proof { assert(content_view(content@) =~= append_output_text(content_view(before), text@)); }
        },
    }
}

/// Adds `text` to the last reasoning text of `content`, or as a new reasoning text.
fn push_reasoning_text(content: &mut Vec<ReasoningItemContent>, text: &str)
    ensures
        reasoning_content_view(final(content)@) == append_reasoning_content(reasoning_content_view(old(content)@), text@),
{
    let ghost before = content@;
    match content.pop() {
        Some(ReasoningItemContent::ReasoningText { text: existing }) => {
            let mut joined = existing;
            push_str(&mut joined, text);
            content.push(ReasoningItemContent::ReasoningText { text: joined });
            proof {
                assert(reasoning_content_view(before).last() == before.last()@);
                assert(reasoning_content_view(content@) =~= append_reasoning_content(reasoning_content_view(before), text@));
            }
        },
        Some(other) => {
            content.push(other);
            content.push(ReasoningItemContent::ReasoningText { text: owned(text) });
            proof {
                assert(content@.drop_last() == before);
                assert(reasoning_content_view(before).last() == before.last()@);
                assert(reasoning_content_view(content@) =~= append_reasoning_content(reasoning_content_view(before), text@));
            }
        },
        None => {
            content.push(ReasoningItemContent::ReasoningText { text: owned(text) });
            proof {
                assert(reasoning_content_view(content@) =~= append_reasoning_content(reasoning_content_view(before), text@));
            }
        },
    }
}

/// The assistant message with `text` streamed into it.
fn with_assistant_text(item: Option<ResponseItem>, text: &str) -> (res: ResponseItem)
    ensures
        res@ == appended_assistant(opt_item_view(item), text@),
{
    match item {
        None => {
            let mut content: Vec<ContentItem> = Vec::new();
            push_output_text(&mut content, text);
            proof { assert(content_view(Seq::<ContentItem>::empty()) =~= Seq::<ContentItemView>::empty()); }
            ResponseItem::Message { role: owned("assistant"), content }
        },
        Some(ResponseItem::Message { role, content }) => {
            let mut content = content;
            push_output_text(&mut content, text);
            ResponseItem::Message { role, content }
        },
        Some(other) => other,
    }
}

/// The reasoning item with `text` streamed into it.
fn with_reasoning_text(item: Option<ResponseItem>, text: &str) -> (res: ResponseItem)
    ensures
        res@ == appended_reasoning(opt_item_view(item), text@),
{
    match item {
        None => {
            let mut content: Vec<ReasoningItemContent> = Vec::new();
            push_reasoning_text(&mut content, text);
            proof {
                assert(reasoning_content_view(Seq::<ReasoningItemContent>::empty()) =~= Seq::<ReasoningItemContentView>::empty());
            }
            ResponseItem::Reasoning { content: Some(content) }
        },
        Some(ResponseItem::Reasoning { content: Some(content) }) => {
            let mut content = content;
            push_reasoning_text(&mut content, text);
            ResponseItem::Reasoning { content: Some(content) }
        },
        Some(other) => other,
    }
}

/// The decimal digits of `n`.
pub open spec fn decimal(n: nat) -> Seq<char>
    decreases n,
{
    if n < 10 {
        seq![digit_char(n)]
    } else {
        decimal(n / 10).push(digit_char(n % 10))
    }
}

pub open spec fn digit_char(d: nat) -> char {
    if d == 0 { '0' } else if d == 1 { '1' } else if d == 2 { '2' } else if d == 3 { '3' } else if d == 4 { '4' }
    else if d == 5 { '5' } else if d == 6 { '6' } else if d == 7 { '7' } else if d == 8 { '8' } else { '9' }
}

fn digit_str(d: u64) -> (res: &'static str)
    requires
        d < 10,
    ensures
        res@ == seq![digit_char(d as nat)],
{
    proof {
        reveal_strlit("0"); reveal_strlit("1"); reveal_strlit("2"); reveal_strlit("3"); reveal_strlit("4");
        reveal_strlit("5"); reveal_strlit("6"); reveal_strlit("7"); reveal_strlit("8"); reveal_strlit("9");
    }
    let res = if d == 0 { "0" } else if d == 1 { "1" } else if d == 2 { "2" } else if d == 3 { "3" }
        else if d == 4 { "4" } else if d == 5 { "5" } else if d == 6 { "6" } else if d == 7 { "7" }
        else if d == 8 { "8" } else { "9" };
    proof { assert(res@ =~= seq![digit_char(d as nat)]); }
    res
}

/// The decimal text of `n`.
pub fn u64_to_decimal(n: u64) -> (res: String)
    ensures
        res@ == decimal(n as nat),
    decreases n,
{
    if n < 10 {
        owned(digit_str(n))
    } else {
        let mut s = u64_to_decimal(n / 10);
        push_str(&mut s, digit_str(n % 10));
        s
    }
}

/// Index `start` advanced by `j`, wrapping around.
pub open spec fn advance(start: u64, j: nat) -> int {
    if start + j <= u64::MAX {
        start + j
    } else {
        start + j - 0x1_0000_0000_0000_0000
    }
}

/// A sequence without repeats that `keys` holds entirely is no longer than `keys`.
proof fn lemma_distinct_subseq_len(visited: Seq<u64>, keys: Seq<u64>)
    requires
        visited.no_duplicates(),
        forall|i: int| 0 <= i < visited.len() ==> keys.contains(#[trigger] visited[i]),
    ensures
        visited.len() <= keys.len(),
{
    visited.unique_seq_to_set();
    keys.lemma_cardinality_of_set();
    assert forall|x: u64| visited.to_set().contains(x) implies keys.to_set().contains(x) by {
        let i = choose|i: int| 0 <= i < visited.len() && visited[i] == x;
        assert(keys.contains(visited[i]));
    }
    vstd::set_lib::lemma_len_subset(visited.to_set(), keys.to_set());
}

impl ChatSseState {
    /// The first index at or after `start` (wrapping around) that no pending
    /// tool call holds.
    fn free_tool_call_index(&self, start: u64) -> (res: u64)
        requires
            self.wf(),
        ensures
            res == free_index(pending_keys(self@.pending), start),
            !pending_keys(self@.pending).contains(res),
    {
        let ghost keys = pending_keys(self@.pending);
        proof { lemma_ordered_keys(self.tool_call_order@, self.tool_calls@); }
        let mut k = start;
        let ghost mut steps: nat = 0;
        let ghost mut visited: Seq<u64> = Seq::empty();
        let mut occupied = self.tool_calls.contains_key(&k);
        let count = self.tool_call_order.len();
        proof { assert(count == keys.len()); }
        while occupied
            invariant
                self.wf(),
                keys == pending_keys(self@.pending),
                keys == self.tool_call_order@,
                keys.len() <= usize::MAX,
                occupied == keys.contains(k),
                visited.len() == steps,
                steps <= keys.len(),
                visited.no_duplicates(),
                forall|j: int| 0 <= j < steps ==> #[trigger] visited[j] == advance(start, j as nat),
                forall|j: int| 0 <= j < steps ==> keys.contains(#[trigger] visited[j]),
                k == advance(start, steps),
                free_index(keys, start) == free_index_from(keys, k, steps),
            decreases keys.len() - steps,
        {
            proof {
                let v2 = visited.push(k);
                assert forall|a: int, b: int| 0 <= a < v2.len() && 0 <= b < v2.len() && a != b implies v2[a] != v2[b] by {
                    if a < steps { assert(v2[a] == advance(start, a as nat)); }
                    if b < steps { assert(v2[b] == advance(start, b as nat)); }
                }
                assert forall|i: int| 0 <= i < v2.len() implies keys.contains(#[trigger] v2[i]) by {
                    if i < steps { assert(v2[i] == visited[i]); }
                }
                lemma_distinct_subseq_len(v2, keys);
                assert(free_index_from(keys, k, steps) == free_index_from(keys, next_index(k), steps + 1));
                visited = v2;
                steps = steps + 1;
            }
            k = k.wrapping_add(1);
            occupied = self.tool_calls.contains_key(&k);
        }
        k
    }
}

/// The index first given to call id `id`.
fn lookup_index_by_id(ids: &Vec<(String, u64)>, id: &str) -> (res: Option<u64>)
    ensures
        res == lookup_id(ids_view(ids@), id@),
{
    let ghost all = ids_view(ids@);
    let n = ids.len();
    let mut i: usize = 0;
    proof { assert(all.skip(0) == all); }
    while i < n
        invariant
            n == ids@.len(),
            all == ids_view(ids@),
            i <= n,
            lookup_id(all, id@) == lookup_id(all.skip(i as int), id@),
        decreases n - i,
    {
        proof {
            assert(all.skip(i as int)[0] == all[i as int]);
            assert(all.skip(i as int).drop_first() == all.skip(i + 1));
        }
        if str_eq(ids[i].0.as_str(), id) {
            return Some(ids[i].1);
        }
        i = i + 1;
    }
    None
}

/// Adding an index that the order does not hold keeps it free of repeats.
proof fn lemma_push_new_no_dup(order: Seq<u64>, k: u64)
    requires
        order.no_duplicates(),
        !order.contains(k),
    ensures
        order.push(k).no_duplicates(),
{
    let o2 = order.push(k);
    assert forall|a: int, b: int| 0 <= a < o2.len() && 0 <= b < o2.len() && a != b implies o2[a] != o2[b] by {
        if a < order.len() && b < order.len() {
            assert(o2[a] == order[a] && o2[b] == order[b]);
        } else if a < order.len() {
            assert(o2[a] == order[a]);
        } else {
            assert(o2[b] == order[b]);
        }
    }
}

impl ChatSseState {
    /// A stream that has handed on nothing yet.
    pub fn new() -> (res: Self)
        ensures
            res.wf(),
            state_wf(res@),
            res@.pending.len() == 0,
            res@.index_by_id.len() == 0,
            res@.next_tool_call_index == 0,
            res@.last_tool_call_index is None,
            res@.assistant_item is None,
            res@.reasoning_item is None,
            !res@.completed_sent,
    {
        let res = ChatSseState {
            tool_calls: HashMap::new(),
            tool_call_order: Vec::new(),
            index_by_id: Vec::new(),
            next_tool_call_index: 0,
            last_tool_call_index: None,
            assistant_item: None,
            reasoning_item: None,
            completed_sent: false,
        };
        proof {
            assert(res@.pending =~= Seq::<(u64, ToolCallStateView)>::empty());
            assert(pending_keys(res@.pending) =~= Seq::<u64>::empty());
            assert(res@.index_by_id.map_values(|e: (Seq<char>, u64)| e.0) =~= Seq::<Seq<char>>::empty());
        }
        res
    }

    /// Applies one tool call delta.
    fn apply_tool_call(&mut self, tc: &Json)
        requires
            old(self).wf(),
        ensures
            final(self).wf(),
            final(self)@ == tool_call_step(old(self)@, *tc),
    {
        let ghost st = self@;
        let ghost keys = pending_keys(st.pending);
        proof { lemma_ordered_keys(self.tool_call_order@, self.tool_calls@); }
        let given = match tc.get("index") {
            Some(v) => v.as_u64(),
            None => None,
        };
        let id = get_str(tc, "id");
        let chosen = match id {
            Some(i) => match lookup_index_by_id(&self.index_by_id, i) {
                Some(e) => Some(e),
                None => given,
            },
            None => match given {
                Some(g) => Some(g),
                None => self.last_tool_call_index,
            },
        };
        proof { assert(chosen == chosen_index(st, *tc)); }
        let index = match chosen {
            Some(i) => i,
            None => {
                let f = self.free_tool_call_index(self.next_tool_call_index);
                self.next_tool_call_index = f.wrapping_add(1);
                f
            },
        };
        if !self.tool_calls.contains_key(&index) {
            let ghost order0 = self.tool_call_order@;
            let ghost calls0 = self.tool_calls@;
            let fresh = ToolCallState { id: None, name: None, arguments: owned("") };
            proof {
                reveal_strlit("");
                assert(""@ =~= Seq::<char>::empty());
                assert(fresh@ == empty_call());
            }
            self.tool_calls.insert(index, fresh);
            self.tool_call_order.push(index);
            proof {
                assert(self.tool_call_order@[order0.len() as int] == index);
                assert forall|i: int| 0 <= i < order0.len() implies #[trigger] order0[i] != index by {
                    assert(keys[i] == order0[i]);
                }
                assert(ordered_pending(self.tool_call_order@, self.tool_calls@) =~= ordered_pending(order0, calls0).push(
                    (index, empty_call()),
                ));
                lemma_push_new_no_dup(order0, index);
                assert forall|k: u64| #[trigger] self.tool_calls@.contains_key(k) <==> self.tool_call_order@.contains(k) by {
                    if k != index {
                        if order0.contains(k) {
                            let j = choose|j: int| 0 <= j < order0.len() && order0[j] == k;
                            assert(self.tool_call_order@[j] == k);
                        }
                        if self.tool_call_order@.contains(k) {
                            let j = choose|j: int| 0 <= j < self.tool_call_order@.len() && self.tool_call_order@[j] == k;
                            assert(j < order0.len());
                            assert(order0[j] == k);
                        }
                    } else {
                        assert(self.tool_call_order@[order0.len() as int] == index);
                    }
                }
            }
        } else {
            proof {
                assert(self.tool_calls@.contains_key(index));
                assert(keys.contains(index));
            }
        }
        let ghost order1 = self.tool_call_order@;
        let ghost calls1 = self.tool_calls@;
        let ghost pending1 = ordered_pending(order1, calls1);
        proof {
            lemma_ordered_keys(order1, calls1);
            if !keys.contains(index) {
                assert(pending1 == st.pending.push((index, empty_call())));
            } else {
                assert(pending1 == st.pending);
            }
            assert(order1.no_duplicates());
            assert(order1.contains(index));
        }
        let ghost pos = key_position(pending1, index);
        proof {
            let j = choose|j: int| 0 <= j < order1.len() && order1[j] == index;
            assert(pending1[j].0 == index);
            assert(0 <= pos < pending1.len() && pending1[pos].0 == index);
            assert(order1[pos] == index);
        }
        let cur = self.tool_calls.get(&index).unwrap();
        proof { assert(cur@ == pending1[pos].1); }
        let new_id = match &cur.id {
            Some(x) => Some(x.clone()),
            None => match id {
                Some(i) => Some(owned(i)),
                None => None,
            },
        };
        let function = tc.get("function");
        let name = match function {
            Some(fv) => get_str(fv, "name"),
            None => None,
        };
        let args = match function {
            Some(fv) => get_str(fv, "arguments"),
            None => None,
        };
        let new_name = match name {
            Some(n) => if !n.is_empty() && cur.name.is_none() {
                Some(owned(n))
            } else {
                match &cur.name {
                    Some(x) => Some(x.clone()),
                    None => None,
                }
            },
            None => match &cur.name {
                Some(x) => Some(x.clone()),
                None => None,
            },
        };
        let mut new_args = cur.arguments.clone();
        if let Some(a) = args {
            push_str(&mut new_args, a);
        }
        let updated = ToolCallState { id: new_id, name: new_name, arguments: new_args };
        let ghost updated_view = updated@;
        self.tool_calls.insert(index, updated);
        proof {
            assert forall|i: int| 0 <= i < order1.len() && i != pos implies #[trigger] order1[i] != index by {
                assert(pending_keys(pending1)[i] == order1[i]);
                assert(pending_keys(pending1)[pos] == order1[pos]);
            }
            assert(ordered_pending(self.tool_call_order@, self.tool_calls@) =~= pending1.update(pos, (index, updated_view)));
            assert forall|k: u64| #[trigger] self.tool_calls@.contains_key(k) <==> self.tool_call_order@.contains(k) by {
                assert(calls1.contains_key(k) <==> order1.contains(k));
            }
        }
        if let Some(i) = id {
            if lookup_index_by_id(&self.index_by_id, i).is_none() {
                let ghost before_ids = self.index_by_id@;
                self.index_by_id.push((owned(i), index));
                proof {
                    assert(ids_view(self.index_by_id@) =~= ids_view(before_ids).push((i@, index)));
                    lemma_lookup_none_not_in(ids_view(before_ids), i@);
                    assert(ids_view(self.index_by_id@).map_values(|e: (Seq<char>, u64)| e.0)
                        =~= ids_view(before_ids).map_values(|e: (Seq<char>, u64)| e.0).push(i@));
                }
            }
        }
        self.last_tool_call_index = Some(index);
    }
}

/// An id that `lookup_id` does not find is held by no entry.
proof fn lemma_lookup_none_not_in(ids: Seq<(Seq<char>, u64)>, id: Seq<char>)
    requires
        lookup_id(ids, id) is None,
    ensures
        forall|i: int| 0 <= i < ids.len() ==> #[trigger] ids[i].0 != id,
    decreases ids.len(),
{
    if ids.len() > 0 {
        lemma_lookup_none_not_in(ids.drop_first(), id);
        assert forall|i: int| 0 <= i < ids.len() implies #[trigger] ids[i].0 != id by {
            if i > 0 {
                assert(ids[i] == ids.drop_first()[i - 1]);
            }
        }
    }
}

/// What a data line of the stream holds.
#[derive(Debug, PartialEq)]
pub enum SseData {
    /// Nothing but white space.
    Empty,
    /// The end marker (`[DONE]` or `DONE`).
    Done,
    /// A chunk, trimmed, to be parsed as JSON.
    Payload(String),
}

/// Classifies a data line: blank, the end marker, or a chunk to parse.
pub fn classify_sse_data(data: &str) -> (res: SseData)
    ensures
        match res {
            SseData::Empty => trim(data@).len() == 0,
            SseData::Done => trim(data@) == "[DONE]"@ || trim(data@) == "DONE"@,
            SseData::Payload(p) => p@ == trim(data@) && trim(data@).len() > 0 && trim(data@) != "[DONE]"@
                && trim(data@) != "DONE"@,
        },
{
    let trimmed = str_trim(data);
    if trimmed.is_empty() {
        SseData::Empty
    } else if str_eq(trimmed, "[DONE]") || str_eq(trimmed, "DONE") {
        SseData::Done
    } else {
        SseData::Payload(owned(trimmed))
    }
}

impl ChatSseState {
    /// Streams in assistant text, handing on the delta.
    fn append_assistant_text(&mut self, text: &str, out: &mut Vec<ChatStreamOutput>)
        requires
            old(self).wf(),
        ensures
            final(self).wf(),
            ({
                let next = step_assistant_text(StreamStep { st: old(self)@, out: outputs_view(old(out)@), stop: false }, text@);
                final(self)@ == next.st && outputs_view(final(out)@) == next.out
            }),
    {
        let ghost before = out@;
        let item = self.assistant_item.take();
        self.assistant_item = Some(with_assistant_text(item, text));
        out.push(ChatStreamOutput::OutputTextDelta(owned(text)));
        proof { assert(outputs_view(out@) =~= outputs_view(before).push(ChatStreamOutputView::OutputTextDelta(text@))); }
    }

    /// Streams in reasoning text, handing on the delta.
    fn append_reasoning_text(&mut self, text: &str, out: &mut Vec<ChatStreamOutput>)
        requires
            old(self).wf(),
        ensures
            final(self).wf(),
            ({
                let next = step_reasoning_text(StreamStep { st: old(self)@, out: outputs_view(old(out)@), stop: false }, text@);
                final(self)@ == next.st && outputs_view(final(out)@) == next.out
            }),
    {
        let ghost before = out@;
        let item = self.reasoning_item.take();
        self.reasoning_item = Some(with_reasoning_text(item, text));
        out.push(ChatStreamOutput::ReasoningContentDelta { delta: owned(text), content_index: 0 });
        proof {
            assert(outputs_view(out@) =~= outputs_view(before).push(
                ChatStreamOutputView::ReasoningContentDelta { delta: text@, content_index: 0 },
            ));
        }
    }

    /// Streams in the text of a reasoning value, where it carries one.
    fn apply_reasoning_value(&mut self, r: Option<&Json>, out: &mut Vec<ChatStreamOutput>)
        requires
            old(self).wf(),
        ensures
            final(self).wf(),
            ({
                let next = step_reasoning_value(
                    StreamStep { st: old(self)@, out: outputs_view(old(out)@), stop: false },
                    match r {
                        Some(v) => Some(*v),
                        None => None,
                    },
                );
                final(self)@ == next.st && outputs_view(final(out)@) == next.out && !next.stop
            }),
    {
        if let Some(rv) = r {
            if let Some(text) = rv.as_str() {
                self.append_reasoning_text(text, out);
            } else if let Some(text) = get_str(rv, "text") {
                self.append_reasoning_text(text, out);
            } else if let Some(text) = get_str(rv, "content") {
                self.append_reasoning_text(text, out);
            }
        }
    }

    /// Streams in a content value: each text part of a list, or a string.
    fn apply_content_value(&mut self, c: Option<&Json>, out: &mut Vec<ChatStreamOutput>)
        requires
            old(self).wf(),
        ensures
            final(self).wf(),
            ({
                let next = step_content_value(
                    StreamStep { st: old(self)@, out: outputs_view(old(out)@), stop: false },
                    match c {
                        Some(v) => Some(*v),
                        None => None,
                    },
                );
                final(self)@ == next.st && outputs_view(final(out)@) == next.out && !next.stop
            }),
    {
        if let Some(cv) = c {
            if let Some(items) = cv.as_array() {
                let ghost s0 = StreamStep { st: self@, out: outputs_view(out@), stop: false };
                let n = items.len();
                let mut i: usize = 0;
                while i < n
                    invariant
                        n == items@.len(),
                        i <= n,
                        self.wf(),
                        content_items_upto(s0, items@, i as nat) == (StreamStep { st: self@, out: outputs_view(out@), stop: false }),
                    decreases n - i,
                {
                    if let Some(text) = get_str(&items[i], "text") {
                        self.append_assistant_text(text, out);
                    }
                    i = i + 1;
                }
            } else if let Some(text) = cv.as_str() {
                self.append_assistant_text(text, out);
            }
        }
    }

    /// Applies a choice's delta: its reasoning, its content, its tool calls.
    fn apply_delta(&mut self, choice: &Json, out: &mut Vec<ChatStreamOutput>)
        requires
            old(self).wf(),
        ensures
            final(self).wf(),
            ({
                let next = step_delta(StreamStep { st: old(self)@, out: outputs_view(old(out)@), stop: false }, *choice);
                final(self)@ == next.st && outputs_view(final(out)@) == next.out && !next.stop
            }),
    {
        if let Some(delta) = choice.get("delta") {
            self.apply_reasoning_value(delta.get("reasoning"), out);
            self.apply_content_value(delta.get("content"), out);
            let calls = match delta.get("tool_calls") {
                Some(v) => v.as_array(),
                None => None,
            };
            if let Some(calls) = calls {
                let ghost st0 = self@;
                let n = calls.len();
                let mut i: usize = 0;
                while i < n
                    invariant
                        n == calls@.len(),
                        i <= n,
                        self.wf(),
                        self@ == tool_calls_upto(st0, calls@, i as nat),
                    decreases n - i,
                {
                    self.apply_tool_call(&calls[i]);
                    i = i + 1;
                }
            }
        }
    }
}

impl ChatSseState {
    /// Hands on the function calls that the pending tool calls become, and
    /// forgets them.
    fn drain_tool_calls(&mut self, out: &mut Vec<ChatStreamOutput>)
        requires
            old(self).wf(),
        ensures
            final(self).wf(),
            final(self)@ == (ChatSseStateView { pending: Seq::empty(), ..old(self)@ }),
            outputs_view(final(out)@) == outputs_view(old(out)@) + drained_calls(old(self)@.pending),
    {
        let ghost base = outputs_view(out@);
        let ghost calls0 = self.tool_calls@;
        proof { lemma_ordered_keys(self.tool_call_order@, self.tool_calls@); }
        let mut order: Vec<u64> = Vec::new();
        std::mem::swap(&mut order, &mut self.tool_call_order);
        let ghost all = ordered_pending(order@, calls0);
        let ghost v0 = self@;
        proof {
            assert(all == old(self)@.pending);
            assert(all.take(0) =~= Seq::<(u64, ToolCallStateView)>::empty());
            assert(base + drained_calls(all.take(0)) =~= base);
            assert(order@.no_duplicates());
            assert(order@.subrange(0, order@.len() as int) =~= order@);
        }
        let n = order.len();
        let mut i: usize = 0;
        while i < n
            invariant
                n == order@.len(),
                all == ordered_pending(order@, calls0),
                order@.no_duplicates(),
                i <= n,
                self.tool_call_order@.len() == 0,
                (ChatSseStateView { pending: Seq::empty(), ..self@ }) == (ChatSseStateView { pending: Seq::empty(), ..v0 }),
                forall|k: u64| #[trigger] self.tool_calls@.contains_key(k) <==> order@.subrange(i as int, n as int).contains(k),
                forall|k: u64| #[trigger] self.tool_calls@.contains_key(k) ==> self.tool_calls@[k] == calls0[k],
                outputs_view(out@) == base + drained_calls(all.take(i as int)),
            decreases n - i,
        {
            let ghost prev = out@;
            let index = order[i];
            proof {
                assert(all.take(i + 1).drop_last() == all.take(i as int));
                assert(all.take(i + 1).last() == (index, calls0[index]@));
                assert(order@.subrange(i as int, n as int)[0] == index);
            }
            let taken = self.tool_calls.remove(&index);
            proof {
                assert forall|k: u64| #[trigger] self.tool_calls@.contains_key(k) <==> order@.subrange(i + 1, n as int).contains(k) by {
                    let tail = order@.subrange(i as int, n as int);
                    let rest = order@.subrange(i + 1, n as int);
                    if rest.contains(k) {
                        let j = choose|j: int| 0 <= j < rest.len() && rest[j] == k;
                        assert(tail[j + 1] == k);
                        assert(order@[i + 1 + j] == k);
                        assert(k != index);
                    }
                    if k != index && tail.contains(k) {
                        let j = choose|j: int| 0 <= j < tail.len() && tail[j] == k;
                        assert(j != 0);
                        assert(rest[j - 1] == k);
                    }
                    if k == index {
                        assert(!rest.contains(k)) by {
                            if rest.contains(k) {
                                let j = choose|j: int| 0 <= j < rest.len() && rest[j] == k;
                                assert(order@[i + 1 + j] == order@[i as int]);
                            }
                        }
                    }
                }
            }
            match taken {
                Some(state) => {
                    proof { assert(state == calls0[index]); }
                    match state.name {
                        Some(name) => {
                            let call_id = match state.id {
                                Some(id) => id,
                                None => {
                                    let mut made = owned("tool-call-");
                                    let digits = u64_to_decimal(index);
                                    push_str(&mut made, digits.as_str());
                                    made
                                },
                            };
                            let item = ResponseItem::FunctionCall { name, arguments: state.arguments, call_id };
                            out.push(ChatStreamOutput::OutputItemDone(item));
                            proof {
                                assert(outputs_view(out@) =~= outputs_view(prev).push(out@.last()@));
                                assert(base + drained_calls(all.take(i + 1)) =~= base + drained_calls(all.take(i as int))
                                    + seq![out@.last()@]);
                            }
                        },
                        None => {
                            proof {
                                assert(base + drained_calls(all.take(i + 1)) =~= base + drained_calls(all.take(i as int)));
                            }
                        },
                    }
                },
                None => {
                    proof { assert(false); }
                },
            }
            i = i + 1;
        }
        proof {
            assert(all.take(n as int) == all);
            assert(ordered_pending(self.tool_call_order@, self.tool_calls@) =~= Seq::<(u64, ToolCallStateView)>::empty());
            assert(pending_keys(self@.pending) =~= Seq::<u64>::empty());
            assert forall|k: u64| #[trigger] self.tool_calls@.contains_key(k) <==> self.tool_call_order@.contains(k) by {
                assert(order@.subrange(n as int, n as int).len() == 0);
            }
        }
    }

    /// Hands on an item taken from the state, where there is one.
    fn emit_item(item: Option<ResponseItem>, out: &mut Vec<ChatStreamOutput>)
        ensures
            outputs_view(final(out)@) == emit_taken(outputs_view(old(out)@), opt_item_view(item)),
    {
        let ghost before = out@;
        if let Some(it) = item {
            out.push(ChatStreamOutput::OutputItemDone(it));
            proof { assert(outputs_view(out@) =~= outputs_view(before).push(out@.last()@)); }
        }
    }

    /// Applies a choice's finish reason; whether the stream ends.
    fn apply_finish(&mut self, choice: &Json, out: &mut Vec<ChatStreamOutput>) -> (stop: bool)
        requires
            old(self).wf(),
        ensures
            final(self).wf(),
            ({
                let next = step_finish(StreamStep { st: old(self)@, out: outputs_view(old(out)@), stop: false }, *choice);
                final(self)@ == next.st && outputs_view(final(out)@) == next.out && stop == next.stop
            }),
    {
        let reason = get_str(choice, "finish_reason");
        let (is_stop, is_length, is_tool_calls) = match reason {
            Some(r) => (str_eq(r, "stop"), str_eq(r, "length"), str_eq(r, "tool_calls")),
            None => (false, false, false),
        };
        if is_stop {
            let reasoning = self.reasoning_item.take();
            Self::emit_item(reasoning, out);
            let assistant = self.assistant_item.take();
            Self::emit_item(assistant, out);
            if !self.completed_sent {
                let ghost before = out@;
                out.push(ChatStreamOutput::Completed);
                proof { assert(outputs_view(out@) =~= outputs_view(before).push(ChatStreamOutputView::Completed)); }
            }
            self.completed_sent = true;
            false
        } else if is_length {
            let ghost before = out@;
            out.push(ChatStreamOutput::ContextWindowExceeded);
            proof { assert(outputs_view(out@) =~= outputs_view(before).push(ChatStreamOutputView::ContextWindowExceeded)); }
            true
        } else if is_tool_calls {
            let reasoning = self.reasoning_item.take();
            Self::emit_item(reasoning, out);
            self.drain_tool_calls(out);
            false
        } else {
            false
        }
    }

    /// Applies one choice of a chunk; whether the stream ends.
    fn apply_choice(&mut self, choice: &Json, out: &mut Vec<ChatStreamOutput>) -> (stop: bool)
        requires
            old(self).wf(),
        ensures
            final(self).wf(),
            ({
                let next = choice_step(StreamStep { st: old(self)@, out: outputs_view(old(out)@), stop: false }, *choice);
                final(self)@ == next.st && outputs_view(final(out)@) == next.out && stop == next.stop
            }),
    {
        let ghost s0 = StreamStep { st: self@, out: outputs_view(out@), stop: false };
        self.apply_delta(choice, out);
        proof { assert(step_delta(s0, *choice) == (StreamStep { st: self@, out: outputs_view(out@), stop: false })); }
        let ghost s1 = StreamStep { st: self@, out: outputs_view(out@), stop: false };
        let message = choice.get("message");
        if let Some(m) = message {
            let reasoning = m.get("reasoning");
            self.apply_reasoning_value(reasoning, out);
        }
        proof { assert(step_message(s1, *choice) == (StreamStep { st: self@, out: outputs_view(out@), stop: false })); }
        self.apply_finish(choice, out)
    }

    /// Handles a chunk of the stream, parsed as JSON: what it hands on, and
    /// whether the stream ends with it.
    pub fn on_payload(&mut self, value: &Json) -> (res: (Vec<ChatStreamOutput>, bool))
        requires
            old(self).wf(),
        ensures
            final(self).wf(),
            state_wf(final(self)@),
            final(self)@ == payload_step(old(self)@, *value).st,
            outputs_view(res.0@) == payload_step(old(self)@, *value).out,
            res.1 == payload_step(old(self)@, *value).stop,
    {
        let mut out: Vec<ChatStreamOutput> = Vec::new();
        let ghost s0 = StreamStep { st: self@, out: Seq::empty(), stop: false };
        proof { assert(outputs_view(out@) =~= Seq::<ChatStreamOutputView>::empty()); }
        let choices = match value.get("choices") {
            Some(v) => v.as_array(),
            None => None,
        };
        let mut stop = false;
        if let Some(choices) = choices {
            let n = choices.len();
            let mut i: usize = 0;
            while i < n && !stop
                invariant
                    n == choices@.len(),
                    i <= n,
                    self.wf(),
                    choices_upto(s0, choices@, i as nat) == (StreamStep { st: self@, out: outputs_view(out@), stop }),
                decreases n - i,
            {
                stop = self.apply_choice(&choices[i], &mut out);
                i = i + 1;
            }
            proof {
                if stop {
                    assert forall|j: nat| i <= j <= n implies choices_upto(s0, choices@, j) == choices_upto(s0, choices@, i as nat) by {
                        lemma_choices_stopped(s0, choices@, i as nat, j);
                    }
                }
            }
        }
        (out, stop)
    }

    /// Handles the end of the stream, by its end marker or by the source
    /// running dry: the reasoning and assistant items and the completion,
    /// unless the completion was already handed on.
    pub fn on_stream_end(&mut self) -> (res: Vec<ChatStreamOutput>)
        requires
            old(self).wf(),
        ensures
            final(self).wf(),
            state_wf(final(self)@),
            outputs_view(res@) == end_outputs(old(self)@),
            final(self)@ == if old(self)@.completed_sent {
                old(self)@
            } else {
                ChatSseStateView { reasoning_item: None, assistant_item: None, ..old(self)@ }
            },
    {
        let mut out: Vec<ChatStreamOutput> = Vec::new();
        proof { assert(outputs_view(out@) =~= Seq::<ChatStreamOutputView>::empty()); }
        if !self.completed_sent {
            let reasoning = self.reasoning_item.take();
            Self::emit_item(reasoning, &mut out);
            let assistant = self.assistant_item.take();
            Self::emit_item(assistant, &mut out);
            let ghost before = out@;
            out.push(ChatStreamOutput::Completed);
            proof { assert(outputs_view(out@) =~= outputs_view(before).push(ChatStreamOutputView::Completed)); }
        }
        out
    }
}

impl ChatSseState {
    /// What the stream hands on when no event arrived in time.
    pub fn on_idle_timeout() -> (res: ChatStreamOutput)
        ensures
            res@ == ChatStreamOutputView::StreamError("idle timeout waiting for SSE"@),
    {
        ChatStreamOutput::StreamError(owned("idle timeout waiting for SSE"))
    }

    /// What the stream hands on when its source fails with `message`.
    pub fn on_transport_error(message: String) -> (res: ChatStreamOutput)
        ensures
            res@ == ChatStreamOutputView::StreamError(message@),
    {
        ChatStreamOutput::StreamError(message)
    }
}

/// Once the stream has ended, later choices change nothing.
proof fn lemma_choices_stopped(s: StreamStep, choices: Seq<Json>, i: nat, j: nat)
    requires
        i <= j,
        choices_upto(s, choices, i).stop,
    ensures
        choices_upto(s, choices, j) == choices_upto(s, choices, i),
    decreases j - i,
{
    if j > i {
        lemma_choices_stopped(s, choices, i, (j - 1) as nat);
    }
}

// ---------------------------------------------------------------------------
// Laws of the stream.

/// No completion among `o`.
pub open spec fn no_completion(o: Seq<ChatStreamOutputView>) -> bool {
    forall|i: int| 0 <= i < o.len() ==> !(#[trigger] o[i] is Completed)
}

/// A step that neither hands on a completion nor changes whether one was.
pub open spec fn keeps_completion(s: StreamStep, t: StreamStep) -> bool {
    &&& t.st.completed_sent == s.st.completed_sent
    &&& no_completion(s.out) ==> no_completion(t.out)
}

proof fn lemma_push_keeps(o: Seq<ChatStreamOutputView>, x: ChatStreamOutputView)
    requires
        !(x is Completed),
    ensures
        no_completion(o) ==> no_completion(o.push(x)),
{
    if no_completion(o) {
        assert forall|i: int| 0 <= i < o.push(x).len() implies !(#[trigger] o.push(x)[i] is Completed) by {
            if i < o.len() {
                assert(o.push(x)[i] == o[i]);
            }
        }
    }
}

proof fn lemma_content_items_keep(s: StreamStep, items: Seq<Json>, n: nat)
    ensures
        keeps_completion(s, content_items_upto(s, items, n)),
    decreases n,
{
    if n > 0 {
        lemma_content_items_keep(s, items, (n - 1) as nat);
        let p = content_items_upto(s, items, (n - 1) as nat);
        if let Some(t) = json_as_str(json_get(items[n - 1], "text"@)) {
            lemma_push_keeps(p.out, ChatStreamOutputView::OutputTextDelta(t));
        }
    }
}

proof fn lemma_tool_calls_keep(st: ChatSseStateView, calls: Seq<Json>, n: nat)
    ensures
        tool_calls_upto(st, calls, n).completed_sent == st.completed_sent,
    decreases n,
{
    if n > 0 {
        lemma_tool_calls_keep(st, calls, (n - 1) as nat);
    }
}

proof fn lemma_reasoning_value_keeps(s: StreamStep, r: Option<Json>)
    ensures
        keeps_completion(s, step_reasoning_value(s, r)),
{
    if let Some(rv) = r {
        if let Some(t) = reasoning_delta(rv) {
            lemma_push_keeps(s.out, ChatStreamOutputView::ReasoningContentDelta { delta: t, content_index: 0 });
        }
    }
}

proof fn lemma_choice_keeps(s: StreamStep, choice: Json)
    ensures
        ({
            let t = choice_step(s, choice);
            &&& s.st.completed_sent ==> t.st.completed_sent
            &&& (s.st.completed_sent && no_completion(s.out)) ==> no_completion(t.out)
            &&& (!no_completion(t.out)) ==> (t.st.completed_sent || !no_completion(s.out))
        }),
{
    let d = step_delta(s, choice);
    if let Some(dv) = json_get(choice, "delta"@) {
        let s1 = step_reasoning_value(s, json_get(dv, "reasoning"@));
        lemma_reasoning_value_keeps(s, json_get(dv, "reasoning"@));
        let s2 = step_content_value(s1, json_get(dv, "content"@));
        if let Some(cv) = json_get(dv, "content"@) {
            if let Some(items) = json_as_array(Some(cv)) {
                lemma_content_items_keep(s1, items, items.len());
            } else if let Some(t) = json_as_str(Some(cv)) {
                lemma_push_keeps(s1.out, ChatStreamOutputView::OutputTextDelta(t));
            }
        }
        if let Some(calls) = json_as_array(json_get(dv, "tool_calls"@)) {
            lemma_tool_calls_keep(s2.st, calls, calls.len());
        }
    }
    let m = step_message(d, choice);
    if let Some(mv) = json_get(choice, "message"@) {
        lemma_reasoning_value_keeps(d, json_get(mv, "reasoning"@));
    }
    let t = step_finish(m, choice);
    let fr = json_as_str(json_get(choice, "finish_reason"@));
    if fr == Some("stop"@) {
        let out1 = emit_taken(emit_taken(m.out, m.st.reasoning_item), m.st.assistant_item);
        if let Some(r) = m.st.reasoning_item {
            lemma_push_keeps(m.out, ChatStreamOutputView::OutputItemDone(r));
        }
        let out0 = emit_taken(m.out, m.st.reasoning_item);
        if let Some(a) = m.st.assistant_item {
            lemma_push_keeps(out0, ChatStreamOutputView::OutputItemDone(a));
        }
    } else if fr == Some("length"@) {
        lemma_push_keeps(m.out, ChatStreamOutputView::ContextWindowExceeded);
    } else if fr == Some("tool_calls"@) {
        if let Some(r) = m.st.reasoning_item {
            lemma_push_keeps(m.out, ChatStreamOutputView::OutputItemDone(r));
        }
        let out0 = emit_taken(m.out, m.st.reasoning_item);
        lemma_drained_no_completion(m.st.pending);
        assert forall|i: int| 0 <= i < (out0 + drained_calls(m.st.pending)).len() && no_completion(out0)
            implies !(#[trigger] (out0 + drained_calls(m.st.pending))[i] is Completed) by {
            if i >= out0.len() {
                assert((out0 + drained_calls(m.st.pending))[i] == drained_calls(m.st.pending)[i - out0.len()]);
            }
        }
        assert forall|i: int| 0 <= i < (out0 + drained_calls(m.st.pending)).len()
            && (out0 + drained_calls(m.st.pending))[i] is Completed implies !no_completion(out0) by {
            if i >= out0.len() {
                assert((out0 + drained_calls(m.st.pending))[i] == drained_calls(m.st.pending)[i - out0.len()]);
            } else {
                assert(out0[i] is Completed);
            }
        }
    }
}

proof fn lemma_drained_no_completion(p: Seq<(u64, ToolCallStateView)>)
    ensures
        no_completion(drained_calls(p)),
    decreases p.len(),
{
    if p.len() > 0 {
        lemma_drained_no_completion(p.drop_last());
        let d = drained_calls(p.drop_last());
        let (index, call) = p.last();
        let tail = match call.name {
            Some(n) => seq![
                ChatStreamOutputView::OutputItemDone(
                    ResponseItemView::FunctionCall { name: n, arguments: call.arguments, call_id: call_id_of(index, call.id) },
                ),
            ],
            None => Seq::<ChatStreamOutputView>::empty(),
        };
        assert forall|i: int| 0 <= i < (d + tail).len() implies !(#[trigger] (d + tail)[i] is Completed) by {
            if i >= d.len() {
                assert((d + tail)[i] == tail[i - d.len()]);
            }
        }
    }
}

proof fn lemma_choices_keep(s: StreamStep, choices: Seq<Json>, n: nat)
    ensures
        ({
            let t = choices_upto(s, choices, n);
            &&& s.st.completed_sent ==> t.st.completed_sent
            &&& (s.st.completed_sent && no_completion(s.out)) ==> no_completion(t.out)
            &&& (!no_completion(t.out)) ==> (t.st.completed_sent || !no_completion(s.out))
        }),
    decreases n,
{
    if n > 0 {
        lemma_choices_keep(s, choices, (n - 1) as nat);
        let p = choices_upto(s, choices, (n - 1) as nat);
        if !p.stop {
            lemma_choice_keeps(p, choices[n - 1]);
        }
    }
}

/// The completion is handed on at most once: a chunk after it hands on no
/// other, and nor does the end of the stream; a chunk that hands it on
/// leaves it recorded.
pub proof fn law_completion_handed_on_once(st: ChatSseStateView, value: Json)
    ensures
        st.completed_sent ==> no_completion(payload_step(st, value).out),
        st.completed_sent ==> payload_step(st, value).st.completed_sent,
        !no_completion(payload_step(st, value).out) ==> payload_step(st, value).st.completed_sent,
        st.completed_sent ==> end_outputs(st).len() == 0,
{
    let s0 = StreamStep { st, out: Seq::empty(), stop: false };
    if let Some(choices) = json_as_array(json_get(value, "choices"@)) {
        lemma_choices_keep(s0, choices, choices.len());
    }
}

/// The text of the assistant message grows by exactly each delta.
pub proof fn law_assistant_text_accumulates(item: Option<ResponseItemView>, text: Seq<char>)
    requires
        item is None || item.unwrap() is Message,
    ensures
        appended_assistant(item, text) is Message,
        message_text(appended_assistant(item, text)->Message_content) == match item {
            Some(i) => message_text(i->Message_content),
            None => Seq::empty(),
        } + text,
{
    let c = match item {
        Some(i) => i->Message_content,
        None => Seq::<ContentItemView>::empty(),
    };
    let c2 = append_output_text(c, text);
    if c.len() > 0 && c.last() is OutputText {
        assert(c2.drop_last() == c.drop_last());
        let e = c.last()->OutputText_text;
        assert(message_text(c) == message_text(c.drop_last()) + e);
        assert(message_text(c2) == message_text(c.drop_last()) + (e + text));
        assert(message_text(c2) =~= message_text(c) + text);
    } else {
        assert(c2.drop_last() == c);
        assert(message_text(c2) == message_text(c) + text);
    }
    if item is None {
        assert(message_text(c) =~= Seq::<char>::empty());
    }
}

/// The text of the reasoning item grows by exactly each delta.
pub proof fn law_reasoning_text_accumulates(item: Option<ResponseItemView>, text: Seq<char>)
    requires
        item is None || (item.unwrap() is Reasoning && item.unwrap()->Reasoning_content is Some),
    ensures
        appended_reasoning(item, text) is Reasoning,
        appended_reasoning(item, text)->Reasoning_content is Some,
        reasoning_text(appended_reasoning(item, text)->Reasoning_content.unwrap()) == match item {
            Some(i) => reasoning_text(i->Reasoning_content.unwrap()),
            None => Seq::empty(),
        } + text,
{
    let c = match item {
        Some(i) => i->Reasoning_content.unwrap(),
        None => Seq::<ReasoningItemContentView>::empty(),
    };
    let c2 = append_reasoning_content(c, text);
    if c.len() > 0 && c.last() is ReasoningText {
        assert(c2.drop_last() == c.drop_last());
        let e = c.last()->ReasoningText_text;
        assert(reasoning_text(c) == reasoning_text(c.drop_last()) + e);
        assert(reasoning_text(c2) == reasoning_text(c.drop_last()) + (e + text));
        assert(reasoning_text(c2) =~= reasoning_text(c) + text);
    } else {
        assert(c2.drop_last() == c);
        assert(reasoning_text(c2) == reasoning_text(c) + text);
    }
    if item is None {
        assert(reasoning_text(c) =~= Seq::<char>::empty());
    }
}

/// A tool call delta loses no pending call and reorders none: the pending
/// indices stay as they were, or gain the delta's index at the end; and
/// each pending call's arguments only grow.
pub proof fn law_tool_call_delta_keeps_pending(st: ChatSseStateView, tc: Json)
    requires
        state_wf(st),
    ensures
        ({
            let next = tool_call_step(st, tc);
            &&& next.last_tool_call_index is Some
            &&& pending_keys(next.pending) == pending_keys(st.pending)
                || pending_keys(next.pending) == pending_keys(st.pending).push(next.last_tool_call_index.unwrap())
            &&& forall|i: int| 0 <= i < st.pending.len() ==> #[trigger] st.pending[i].1.arguments.is_prefix_of(
                next.pending[i].1.arguments,
            )
        }),
{
    let next = tool_call_step(st, tc);
    let keys = pending_keys(st.pending);
    let index = next.last_tool_call_index.unwrap();
    let pending1 = if keys.contains(index) { st.pending } else { st.pending.push((index, empty_call())) };
    let pos = key_position(pending1, index);
    if !keys.contains(index) {
        assert(pending1[pending1.len() - 1].0 == index);
        assert(pending_keys(pending1) =~= keys.push(index));
    } else {
        let j = choose|j: int| 0 <= j < keys.len() && keys[j] == index;
        assert(pending1[j].0 == index);
    }
    assert(0 <= pos < pending1.len() && pending1[pos].0 == index);
    assert(pending_keys(next.pending) =~= pending_keys(pending1));
    assert forall|i: int| 0 <= i < st.pending.len() implies #[trigger] st.pending[i].1.arguments.is_prefix_of(
        next.pending[i].1.arguments,
    ) by {
        assert(pending1[i] == st.pending[i]);
        if i == pos {
            let a = st.pending[i].1.arguments;
            let b = next.pending[i].1.arguments;
            assert(b.subrange(0, a.len() as int) =~= a);
        } else {
            assert(next.pending[i] == st.pending[i]);
        }
    }
}


// ---------------------------------------------------------------------------
// The whole stream.

/// What the stream hands the library, one event at a time.
#[derive(Debug, PartialEq)]
pub enum StreamInput {
    /// A chunk, parsed as JSON.
    Chunk(Json),
    /// An event with nothing to act on: blank data, or data that is not JSON.
    Ignored,
    /// The end marker, or the source running dry.
    End,
    /// The source failed with this message.
    TransportError(String),
    /// No event arrived in time.
    IdleTimeout,
}

pub enum StreamInputView {
    Chunk(Json),
    Ignored,
    End,
    TransportError(Seq<char>),
    IdleTimeout,
}

impl View for StreamInput {
    type V = StreamInputView;

    open spec fn view(&self) -> StreamInputView {
        match self {
            StreamInput::Chunk(v) => StreamInputView::Chunk(*v),
            StreamInput::Ignored => StreamInputView::Ignored,
            StreamInput::End => StreamInputView::End,
            StreamInput::TransportError(m) => StreamInputView::TransportError(m@),
            StreamInput::IdleTimeout => StreamInputView::IdleTimeout,
        }
    }
}

/// The state after the end of the stream.
pub open spec fn end_state(st: ChatSseStateView) -> ChatSseStateView {
    if st.completed_sent {
        st
    } else {
        ChatSseStateView { reasoning_item: None, assistant_item: None, ..st }
    }
}

/// The step after one event of the stream.
pub open spec fn input_step(st: ChatSseStateView, input: StreamInputView) -> StreamStep {
    match input {
        StreamInputView::Chunk(v) => payload_step(st, v),
        StreamInputView::Ignored => StreamStep { st, out: Seq::empty(), stop: false },
        StreamInputView::End => StreamStep { st: end_state(st), out: end_outputs(st), stop: true },
        StreamInputView::TransportError(m) => StreamStep {
            st,
            out: seq![ChatStreamOutputView::StreamError(m)],
            stop: true,
        },
        StreamInputView::IdleTimeout => StreamStep {
            st,
            out: seq![ChatStreamOutputView::StreamError("idle timeout waiting for SSE"@)],
            stop: true,
        },
    }
}

/// Everything a stream hands on for `inputs`, from state `st`, up to the
/// event that ends it.
pub open spec fn stream_outputs(st: ChatSseStateView, inputs: Seq<StreamInputView>) -> Seq<ChatStreamOutputView>
    decreases inputs.len(),
{
    if inputs.len() == 0 {
        Seq::empty()
    } else {
        let s = input_step(st, inputs[0]);
        if s.stop {
            s.out
        } else {
            s.out + stream_outputs(s.st, inputs.drop_first())
        }
    }
}

impl ChatSseState {
    /// Handles one event of the stream: what it hands on, and whether the
    /// stream ends with it.
    pub fn on_event(&mut self, input: StreamInput) -> (res: (Vec<ChatStreamOutput>, bool))
        requires
            old(self).wf(),
        ensures
            final(self).wf(),
            state_wf(final(self)@),
            final(self)@ == input_step(old(self)@, input@).st,
            outputs_view(res.0@) == input_step(old(self)@, input@).out,
            res.1 == input_step(old(self)@, input@).stop,
    {
        match input {
            StreamInput::Chunk(v) => self.on_payload(&v),
            StreamInput::Ignored => {
                let out: Vec<ChatStreamOutput> = Vec::new();
                proof { assert(outputs_view(out@) =~= Seq::<ChatStreamOutputView>::empty()); }
                (out, false)
            },
            StreamInput::End => (self.on_stream_end(), true),
            StreamInput::TransportError(m) => {
                let out = vec![Self::on_transport_error(m)];
                proof { assert(outputs_view(out@) =~= seq![out@[0]@]); }
                (out, true)
            },
            StreamInput::IdleTimeout => {
                let out = vec![Self::on_idle_timeout()];
                proof { assert(outputs_view(out@) =~= seq![out@[0]@]); }
                (out, true)
            },
        }
    }
}

/// How many completions `o` holds.
pub open spec fn completion_count(o: Seq<ChatStreamOutputView>) -> nat
    decreases o.len(),
{
    if o.len() == 0 {
        0
    } else {
        completion_count(o.drop_last()) + if o.last() is Completed { 1nat } else { 0nat }
    }
}

/// Whether an output is an error.
pub open spec fn is_error(x: ChatStreamOutputView) -> bool {
    x is StreamError || x is ContextWindowExceeded
}

/// How many errors `o` holds.
pub open spec fn error_count(o: Seq<ChatStreamOutputView>) -> nat
    decreases o.len(),
{
    if o.len() == 0 {
        0
    } else {
        error_count(o.drop_last()) + if is_error(o.last()) { 1nat } else { 0nat }
    }
}

proof fn lemma_counts_push(o: Seq<ChatStreamOutputView>, x: ChatStreamOutputView)
    ensures
        completion_count(o.push(x)) == completion_count(o) + if x is Completed { 1nat } else { 0nat },
        error_count(o.push(x)) == error_count(o) + if is_error(x) { 1nat } else { 0nat },
{
    assert(o.push(x).drop_last() =~= o);
}

proof fn lemma_counts_add(a: Seq<ChatStreamOutputView>, b: Seq<ChatStreamOutputView>)
    ensures
        completion_count(a + b) == completion_count(a) + completion_count(b),
        error_count(a + b) == error_count(a) + error_count(b),
    decreases b.len(),
{
    if b.len() == 0 {
        assert(a + b =~= a);
    } else {
        lemma_counts_add(a, b.drop_last());
        assert((a + b).drop_last() =~= a + b.drop_last());
        assert((a + b).last() == b.last());
    }
}

/// A step that hands on neither a completion nor an error, and changes
/// neither whether a completion was handed on nor whether the stream ended.
pub open spec fn benign_step(s: StreamStep, t: StreamStep) -> bool {
    &&& t.st.completed_sent == s.st.completed_sent
    &&& t.stop == s.stop
    &&& completion_count(t.out) == completion_count(s.out)
    &&& error_count(t.out) == error_count(s.out)
}

proof fn lemma_benign_push(s: StreamStep, x: ChatStreamOutputView)
    requires
        !(x is Completed),
        !is_error(x),
    ensures
        completion_count(s.out.push(x)) == completion_count(s.out),
        error_count(s.out.push(x)) == error_count(s.out),
{
    lemma_counts_push(s.out, x);
}

proof fn lemma_content_items_benign(s: StreamStep, items: Seq<Json>, n: nat)
    ensures
        benign_step(s, content_items_upto(s, items, n)),
    decreases n,
{
    if n > 0 {
        lemma_content_items_benign(s, items, (n - 1) as nat);
        let p = content_items_upto(s, items, (n - 1) as nat);
        if let Some(t) = json_as_str(json_get(items[n - 1], "text"@)) {
            lemma_benign_push(p, ChatStreamOutputView::OutputTextDelta(t));
        }
    }
}

proof fn lemma_reasoning_value_benign(s: StreamStep, r: Option<Json>)
    ensures
        benign_step(s, step_reasoning_value(s, r)),
{
    if let Some(rv) = r {
        if let Some(t) = reasoning_delta(rv) {
            lemma_benign_push(s, ChatStreamOutputView::ReasoningContentDelta { delta: t, content_index: 0 });
        }
    }
}

proof fn lemma_delta_benign(s: StreamStep, choice: Json)
    ensures
        benign_step(s, step_delta(s, choice)),
        benign_step(step_delta(s, choice), step_message(step_delta(s, choice), choice)),
{
    if let Some(dv) = json_get(choice, "delta"@) {
        let s1 = step_reasoning_value(s, json_get(dv, "reasoning"@));
        lemma_reasoning_value_benign(s, json_get(dv, "reasoning"@));
        let s2 = step_content_value(s1, json_get(dv, "content"@));
        if let Some(cv) = json_get(dv, "content"@) {
            if let Some(items) = json_as_array(Some(cv)) {
                lemma_content_items_benign(s1, items, items.len());
            } else if let Some(t) = json_as_str(Some(cv)) {
                lemma_benign_push(s1, ChatStreamOutputView::OutputTextDelta(t));
            }
        }
        if let Some(calls) = json_as_array(json_get(dv, "tool_calls"@)) {
            lemma_tool_calls_keep(s2.st, calls, calls.len());
        }
    }
    let d = step_delta(s, choice);
    if let Some(mv) = json_get(choice, "message"@) {
        lemma_reasoning_value_benign(d, json_get(mv, "reasoning"@));
    }
}

proof fn lemma_drained_counts(p: Seq<(u64, ToolCallStateView)>)
    ensures
        completion_count(drained_calls(p)) == 0,
        error_count(drained_calls(p)) == 0,
    decreases p.len(),
{
    if p.len() > 0 {
        lemma_drained_counts(p.drop_last());
        let (index, call) = p.last();
        let tail = match call.name {
            Some(n) => seq![
                ChatStreamOutputView::OutputItemDone(
                    ResponseItemView::FunctionCall { name: n, arguments: call.arguments, call_id: call_id_of(index, call.id) },
                ),
            ],
            None => Seq::<ChatStreamOutputView>::empty(),
        };
        lemma_counts_add(drained_calls(p.drop_last()), tail);
        if let Some(n) = call.name {
            lemma_counts_push(Seq::empty(), tail[0]);
            assert(tail =~= Seq::<ChatStreamOutputView>::empty().push(tail[0]));
        }
    }
}

proof fn lemma_emit_taken_counts(o: Seq<ChatStreamOutputView>, item: Option<ResponseItemView>)
    ensures
        completion_count(emit_taken(o, item)) == completion_count(o),
        error_count(emit_taken(o, item)) == error_count(o),
{
    if let Some(i) = item {
        lemma_counts_push(o, ChatStreamOutputView::OutputItemDone(i));
    }
}

/// The potential of a step: the completions handed on, plus one while
/// a completion may still come.
pub open spec fn completion_potential(s: StreamStep) -> nat {
    completion_count(s.out) + if s.st.completed_sent { 0nat } else { 1nat }
}

/// What one choice does to the counts: the completion potential does not
/// grow, and an error is handed on only by the choice that ends the
/// stream, as its last output.
pub open spec fn choice_counts_ok(s: StreamStep, t: StreamStep) -> bool {
    &&& s.st.completed_sent ==> t.st.completed_sent
    &&& completion_potential(t) <= completion_potential(s)
    &&& error_count(t.out) == error_count(s.out) + if t.stop { 1nat } else { 0nat }
    &&& t.stop ==> t.out.len() > 0 && t.out.last() is ContextWindowExceeded
}

proof fn lemma_choice_counts(s: StreamStep, choice: Json)
    requires
        !s.stop,
    ensures
        choice_counts_ok(s, choice_step(s, choice)),
{
    lemma_delta_benign(s, choice);
    let m = step_message(step_delta(s, choice), choice);
    let fr = json_as_str(json_get(choice, "finish_reason"@));
    if fr == Some("stop"@) {
        let out1 = emit_taken(emit_taken(m.out, m.st.reasoning_item), m.st.assistant_item);
        lemma_emit_taken_counts(m.out, m.st.reasoning_item);
        lemma_emit_taken_counts(emit_taken(m.out, m.st.reasoning_item), m.st.assistant_item);
        if !m.st.completed_sent {
            lemma_counts_push(out1, ChatStreamOutputView::Completed);
        }
    } else if fr == Some("length"@) {
        lemma_counts_push(m.out, ChatStreamOutputView::ContextWindowExceeded);
    } else if fr == Some("tool_calls"@) {
        let out0 = emit_taken(m.out, m.st.reasoning_item);
        lemma_emit_taken_counts(m.out, m.st.reasoning_item);
        lemma_drained_counts(m.st.pending);
        lemma_counts_add(out0, drained_calls(m.st.pending));
    }
}

proof fn lemma_choices_counts(s: StreamStep, choices: Seq<Json>, n: nat)
    requires
        !s.stop,
    ensures
        choice_counts_ok(s, choices_upto(s, choices, n)),
    decreases n,
{
    if n > 0 {
        lemma_choices_counts(s, choices, (n - 1) as nat);
        let p = choices_upto(s, choices, (n - 1) as nat);
        if !p.stop {
            lemma_choice_counts(p, choices[n - 1]);
        }
    }
}

/// What one event hands on: a completion only while none was handed on,
/// and an error only as the last output of an event that ends the stream.
proof fn lemma_input_counts(st: ChatSseStateView, input: StreamInputView)
    ensures
        ({
            let s = input_step(st, input);
            &&& completion_count(s.out) + (if s.stop || s.st.completed_sent { 0nat } else { 1nat })
                <= if st.completed_sent { 0nat } else { 1nat }
            &&& !s.stop ==> error_count(s.out) == 0
            &&& error_count(s.out) <= 1
            &&& error_count(s.out) == 1 ==> s.out.len() > 0 && is_error(s.out.last())
        }),
{
    let empty = Seq::<ChatStreamOutputView>::empty();
    match input {
        StreamInputView::Chunk(v) => {
            let s0 = StreamStep { st, out: empty, stop: false };
            if let Some(choices) = json_as_array(json_get(v, "choices"@)) {
                lemma_choices_counts(s0, choices, choices.len());
            }
        },
        StreamInputView::Ignored => {},
        StreamInputView::End => {
            if !st.completed_sent {
                let o1 = emit_taken(emit_taken(empty, st.reasoning_item), st.assistant_item);
                lemma_emit_taken_counts(empty, st.reasoning_item);
                lemma_emit_taken_counts(emit_taken(empty, st.reasoning_item), st.assistant_item);
                lemma_counts_push(o1, ChatStreamOutputView::Completed);
            }
        },
        StreamInputView::TransportError(m) => {
            lemma_counts_push(empty, ChatStreamOutputView::StreamError(m));
            assert(seq![ChatStreamOutputView::StreamError(m)] =~= empty.push(ChatStreamOutputView::StreamError(m)));
        },
        StreamInputView::IdleTimeout => {
            let e = ChatStreamOutputView::StreamError("idle timeout waiting for SSE"@);
            lemma_counts_push(empty, e);
            assert(seq![e] =~= empty.push(e));
        },
    }
}

/// Over a whole stream, at most one completion is handed on (none where one
/// already was), at most one error, and an error is the last thing handed on.
pub proof fn law_stream_completes_once_and_errors_last(st: ChatSseStateView, inputs: Seq<StreamInputView>)
    ensures
        completion_count(stream_outputs(st, inputs)) <= if st.completed_sent { 0nat } else { 1nat },
        error_count(stream_outputs(st, inputs)) <= 1,
        error_count(stream_outputs(st, inputs)) == 1 ==> is_error(stream_outputs(st, inputs).last()),
    decreases inputs.len(),
{
    if inputs.len() > 0 {
        let s = input_step(st, inputs[0]);
        lemma_input_counts(st, inputs[0]);
        if !s.stop {
            let rest = stream_outputs(s.st, inputs.drop_first());
            law_stream_completes_once_and_errors_last(s.st, inputs.drop_first());
            lemma_counts_add(s.out, rest);
            if error_count(rest) == 1 {
                assert(rest.len() > 0);
                assert((s.out + rest).last() == rest.last());
            }
        }
    }
}

/// An event that gives the stream nothing to act on: an ignored one, or a
/// chunk with no choices.
pub open spec fn inert(input: StreamInputView) -> bool {
    match input {
        StreamInputView::Ignored => true,
        StreamInputView::Chunk(v) => match json_as_array(json_get(v, "choices"@)) {
            Some(c) => c.len() == 0,
            None => true,
        },
        _ => false,
    }
}

/// An event with nothing to act on, inserted anywhere in a stream, changes
/// nothing that the stream hands on.
pub proof fn law_inert_event_changes_nothing(
    st: ChatSseStateView,
    before: Seq<StreamInputView>,
    input: StreamInputView,
    after: Seq<StreamInputView>,
)
    requires
        inert(input),
    ensures
        stream_outputs(st, before + seq![input] + after) == stream_outputs(st, before + after),
    decreases before.len(),
{
    let with = before + seq![input] + after;
    let without = before + after;
    if before.len() == 0 {
        assert(with[0] == input);
        assert(with.drop_first() =~= after);
        assert(without =~= after);
        let s = input_step(st, input);
        assert(s.st == st && s.out == Seq::<ChatStreamOutputView>::empty() && !s.stop);
        assert(Seq::<ChatStreamOutputView>::empty() + stream_outputs(st, after) =~= stream_outputs(st, after));
    } else {
        assert(with[0] == before[0]);
        assert(without[0] == before[0]);
        assert(with.drop_first() =~= before.drop_first() + seq![input] + after);
        assert(without.drop_first() =~= before.drop_first() + after);
        let s = input_step(st, before[0]);
        law_inert_event_changes_nothing(s.st, before.drop_first(), input, after);
    }
}


/// A chunk whose one choice only finishes with `stop` hands on the reasoning
/// that streamed in, first, then the assistant message, then (once) the
/// completion; the end of a stream does the same. Reasoning is never lost.
pub proof fn law_stop_hands_on_reasoning(st: ChatSseStateView, value: Json, choice: Json)
    requires
        st.reasoning_item is Some,
        json_as_array(json_get(value, "choices"@)) == Some(seq![choice]),
        json_get(choice, "delta"@) is None,
        json_get(choice, "message"@) is None,
        json_as_str(json_get(choice, "finish_reason"@)) == Some("stop"@),
    ensures
        ({
            let s = payload_step(st, value);
            &&& s.out.len() > 0
            &&& s.out[0] == ChatStreamOutputView::OutputItemDone(st.reasoning_item.unwrap())
            &&& st.assistant_item matches Some(a) ==> s.out.len() > 1 && s.out[1]
                == ChatStreamOutputView::OutputItemDone(a)
            &&& !st.completed_sent ==> s.out.len() > 1 && s.out.last() == ChatStreamOutputView::Completed
            &&& s.st.reasoning_item is None
            &&& !s.stop
        }),
        ({
            let e = input_step(st, StreamInputView::End);
            &&& !st.completed_sent ==> e.out.len() > 1
                && e.out[0] == ChatStreamOutputView::OutputItemDone(st.reasoning_item.unwrap())
                && e.out.last() == ChatStreamOutputView::Completed
        }),
{
    let s0 = StreamStep { st, out: Seq::empty(), stop: false };
    let choices = seq![choice];
    assert(choices_upto(s0, choices, 0) == s0);
    assert(step_delta(s0, choice) == s0);
    assert(step_message(s0, choice) == s0);
    assert(choices_upto(s0, choices, 1) == choice_step(s0, choice));
    assert(choices.len() == 1);
}

/// The arguments fragment that a tool call delta carries (none where it
/// carries none).
pub open spec fn arguments_fragment(tc: Json) -> Seq<char> {
    match json_get(tc, "function"@) {
        Some(f) => match json_as_str(json_get(f, "arguments"@)) {
            Some(a) => a,
            None => Seq::empty(),
        },
        None => Seq::empty(),
    }
}

/// After a tool call delta, the call it names has exactly its earlier
/// arguments followed by the delta's fragment (a new call just the
/// fragment), and every other pending call is untouched.
pub proof fn law_tool_call_arguments_append_fragment(st: ChatSseStateView, tc: Json)
    requires
        state_wf(st),
    ensures
        ({
            let next = tool_call_step(st, tc);
            let k = next.last_tool_call_index.unwrap();
            &&& next.last_tool_call_index is Some
            &&& forall|q: int| 0 <= q < st.pending.len() && #[trigger] st.pending[q].0 == k ==> next.pending[q]
                == (k, ToolCallStateView { arguments: st.pending[q].1.arguments + arguments_fragment(tc), ..next.pending[q].1 })
            &&& forall|q: int| 0 <= q < st.pending.len() && #[trigger] st.pending[q].0 != k ==> next.pending[q] == st.pending[q]
            &&& pending_keys(st.pending).contains(k) ==> next.pending.len() == st.pending.len()
            &&& !pending_keys(st.pending).contains(k) ==> next.pending.len() == st.pending.len() + 1
                && next.pending.last().0 == k && next.pending.last().1.arguments == arguments_fragment(tc)
        }),
{
    let next = tool_call_step(st, tc);
    let keys = pending_keys(st.pending);
    let index = next.last_tool_call_index.unwrap();
    let pending1 = if keys.contains(index) { st.pending } else { st.pending.push((index, empty_call())) };
    let pos = key_position(pending1, index);
    if !keys.contains(index) {
        assert(pending1[pending1.len() - 1].0 == index);
        assert(pending_keys(pending1) =~= keys.push(index));
        lemma_push_new_no_dup(keys, index);
    } else {
        let j = choose|j: int| 0 <= j < keys.len() && keys[j] == index;
        assert(pending1[j].0 == index);
        assert(pending_keys(pending1) == keys);
    }
    assert(0 <= pos < pending1.len() && pending1[pos].0 == index);
    assert forall|q: int| 0 <= q < pending1.len() && #[trigger] pending1[q].0 == index implies q == pos by {
        assert(pending_keys(pending1)[q] == pending_keys(pending1)[pos]);
    }
    if !keys.contains(index) {
        assert(pos == st.pending.len());
        assert(Seq::<char>::empty() + arguments_fragment(tc) =~= arguments_fragment(tc));
    }
    assert forall|q: int| 0 <= q < st.pending.len() && #[trigger] st.pending[q].0 == index implies next.pending[q]
        == (index, ToolCallStateView { arguments: st.pending[q].1.arguments + arguments_fragment(tc), ..next.pending[q].1 }) by {
        assert(pending1[q] == st.pending[q]);
        assert(q == pos);
        let f = json_get(tc, "function"@);
        if f is None || json_as_str(json_get(f.unwrap(), "arguments"@)) is None {
            assert(st.pending[q].1.arguments + Seq::<char>::empty() =~= st.pending[q].1.arguments);
        }
    }
    assert forall|q: int| 0 <= q < st.pending.len() && #[trigger] st.pending[q].0 != index implies next.pending[q] == st.pending[q] by {
        assert(pending1[q] == st.pending[q]);
    }
}

} // verus!
