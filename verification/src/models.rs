use vstd::prelude::*;
use crate::text::strings_view;

verus! {

/// One part of a message's content.
#[derive(Debug, PartialEq)]
pub enum ContentItem {
    InputText { text: String },
    InputImage { image_url: String },
    OutputText { text: String },
}

pub enum ContentItemView {
    InputText { text: Seq<char> },
    InputImage { image_url: Seq<char> },
    OutputText { text: Seq<char> },
}

impl View for ContentItem {
    type V = ContentItemView;

    open spec fn view(&self) -> ContentItemView {
        match self {
            ContentItem::InputText { text } => ContentItemView::InputText { text: text@ },
            ContentItem::InputImage { image_url } => ContentItemView::InputImage { image_url: image_url@ },
            ContentItem::OutputText { text } => ContentItemView::OutputText { text: text@ },
        }
    }
}

/// One part of a reasoning item's content.
#[derive(Debug, PartialEq)]
pub enum ReasoningItemContent {
    ReasoningText { text: String },
    Text { text: String },
}

pub enum ReasoningItemContentView {
    ReasoningText { text: Seq<char> },
    Text { text: Seq<char> },
}

impl View for ReasoningItemContent {
    type V = ReasoningItemContentView;

    open spec fn view(&self) -> ReasoningItemContentView {
        match self {
            ReasoningItemContent::ReasoningText { text } => ReasoningItemContentView::ReasoningText { text: text@ },
            ReasoningItemContent::Text { text } => ReasoningItemContentView::Text { text: text@ },
        }
    }
}

/// One part of a tool's output.
#[derive(Debug, PartialEq)]
pub enum FunctionCallOutputContentItem {
    InputText { text: String },
    InputImage { image_url: String },
}

pub enum FunctionCallOutputContentItemView {
    InputText { text: Seq<char> },
    InputImage { image_url: Seq<char> },
}

impl View for FunctionCallOutputContentItem {
    type V = FunctionCallOutputContentItemView;

    open spec fn view(&self) -> FunctionCallOutputContentItemView {
        match self {
            FunctionCallOutputContentItem::InputText { text } => FunctionCallOutputContentItemView::InputText { text: text@ },
            FunctionCallOutputContentItem::InputImage { image_url } => FunctionCallOutputContentItemView::InputImage {
                image_url: image_url@,
            },
        }
    }
}

/// What a tool handed back: plain text, or a list of parts.
#[derive(Debug, PartialEq)]
pub enum FunctionCallOutputBody {
    Text(String),
    ContentItems(Vec<FunctionCallOutputContentItem>),
}

pub enum FunctionCallOutputBodyView {
    Text(Seq<char>),
    ContentItems(Seq<FunctionCallOutputContentItemView>),
}

impl View for FunctionCallOutputBody {
    type V = FunctionCallOutputBodyView;

    open spec fn view(&self) -> FunctionCallOutputBodyView {
        match self {
            FunctionCallOutputBody::Text(t) => FunctionCallOutputBodyView::Text(t@),
            FunctionCallOutputBody::ContentItems(items) => FunctionCallOutputBodyView::ContentItems(
                items@.map_values(|i: FunctionCallOutputContentItem| i@),
            ),
        }
    }
}

/// Where a local shell call stands.
#[derive(Debug, Clone, Copy, PartialEq, Eq, Structural)]
pub enum LocalShellStatus {
    Completed,
    InProgress,
    Incomplete,
}

/// The command that a local shell call runs.
#[derive(Debug, PartialEq)]
pub struct LocalShellAction {
    pub command: Vec<String>,
    pub timeout_ms: Option<u64>,
    pub working_directory: Option<String>,
    pub env: Option<Vec<(String, String)>>,
    pub user: Option<String>,
}

pub struct LocalShellActionView {
    pub command: Seq<Seq<char>>,
    pub timeout_ms: Option<u64>,
    pub working_directory: Option<Seq<char>>,
    pub env: Option<Seq<(Seq<char>, Seq<char>)>>,
    pub user: Option<Seq<char>>,
}

pub open spec fn opt_string_view(s: Option<String>) -> Option<Seq<char>> {
    match s {
        Some(s) => Some(s@),
        None => None,
    }
}

pub open spec fn pairs_view(p: Seq<(String, String)>) -> Seq<(Seq<char>, Seq<char>)> {
    p.map_values(|kv: (String, String)| (kv.0@, kv.1@))
}

impl View for LocalShellAction {
    type V = LocalShellActionView;

    open spec fn view(&self) -> LocalShellActionView {
        LocalShellActionView {
            command: strings_view(self.command@),
            timeout_ms: self.timeout_ms,
            working_directory: opt_string_view(self.working_directory),
            env: match self.env {
                Some(e) => Some(pairs_view(e@)),
                None => None,
            },
            user: opt_string_view(self.user),
        }
    }
}

/// An item of a conversation, as the responses API sees it.
#[allow(inconsistent_fields)]
#[derive(Debug, PartialEq)]
pub enum ResponseItem {
    Message { role: String, content: Vec<ContentItem> },
    Reasoning { content: Option<Vec<ReasoningItemContent>> },
    LocalShellCall { id: Option<String>, call_id: Option<String>, status: LocalShellStatus, action: LocalShellAction },
    FunctionCall { name: String, arguments: String, call_id: String },
    FunctionCallOutput { call_id: String, output: FunctionCallOutputBody },
    CustomToolCall { call_id: String, name: String, input: String },
    CustomToolCallOutput { call_id: String, output: FunctionCallOutputBody },
    ToolSearchCall,
    ToolSearchOutput,
    WebSearchCall,
    ImageGenerationCall,
    Compaction,
    ContextCompaction,
    Other,
}

#[allow(inconsistent_fields)]
pub enum ResponseItemView {
    Message { role: Seq<char>, content: Seq<ContentItemView> },
    Reasoning { content: Option<Seq<ReasoningItemContentView>> },
    LocalShellCall {
        id: Option<Seq<char>>,
        call_id: Option<Seq<char>>,
        status: LocalShellStatus,
        action: LocalShellActionView,
    },
    FunctionCall { name: Seq<char>, arguments: Seq<char>, call_id: Seq<char> },
    FunctionCallOutput { call_id: Seq<char>, output: FunctionCallOutputBodyView },
    CustomToolCall { call_id: Seq<char>, name: Seq<char>, input: Seq<char> },
    CustomToolCallOutput { call_id: Seq<char>, output: FunctionCallOutputBodyView },
    ToolSearchCall,
    ToolSearchOutput,
    WebSearchCall,
    ImageGenerationCall,
    Compaction,
    ContextCompaction,
    Other,
}

pub open spec fn content_view(c: Seq<ContentItem>) -> Seq<ContentItemView> {
    c.map_values(|i: ContentItem| i@)
}

pub open spec fn reasoning_content_view(c: Seq<ReasoningItemContent>) -> Seq<ReasoningItemContentView> {
    c.map_values(|i: ReasoningItemContent| i@)
}

impl View for ResponseItem {
    type V = ResponseItemView;

    open spec fn view(&self) -> ResponseItemView {
        match self {
            ResponseItem::Message { role, content } => ResponseItemView::Message {
                role: role@,
                content: content_view(content@),
            },
            ResponseItem::Reasoning { content } => ResponseItemView::Reasoning {
                content: match content {
                    Some(c) => Some(reasoning_content_view(c@)),
                    None => None,
                },
            },
            ResponseItem::LocalShellCall { id, call_id, status, action } => ResponseItemView::LocalShellCall {
                id: opt_string_view(*id),
                call_id: opt_string_view(*call_id),
                status: *status,
                action: action@,
            },
            ResponseItem::FunctionCall { name, arguments, call_id } => ResponseItemView::FunctionCall {
                name: name@,
                arguments: arguments@,
                call_id: call_id@,
            },
            ResponseItem::FunctionCallOutput { call_id, output } => ResponseItemView::FunctionCallOutput {
                call_id: call_id@,
                output: output@,
            },
            ResponseItem::CustomToolCall { call_id, name, input } => ResponseItemView::CustomToolCall {
                call_id: call_id@,
                name: name@,
                input: input@,
            },
            ResponseItem::CustomToolCallOutput { call_id, output } => ResponseItemView::CustomToolCallOutput {
                call_id: call_id@,
                output: output@,
            },
            ResponseItem::ToolSearchCall => ResponseItemView::ToolSearchCall,
            ResponseItem::ToolSearchOutput => ResponseItemView::ToolSearchOutput,
            ResponseItem::WebSearchCall => ResponseItemView::WebSearchCall,
            ResponseItem::ImageGenerationCall => ResponseItemView::ImageGenerationCall,
            ResponseItem::Compaction => ResponseItemView::Compaction,
            ResponseItem::ContextCompaction => ResponseItemView::ContextCompaction,
            ResponseItem::Other => ResponseItemView::Other,
        }
    }
}

pub open spec fn items_view(items: Seq<ResponseItem>) -> Seq<ResponseItemView> {
    items.map_values(|i: ResponseItem| i@)
}

/// A copy of `s`.
pub fn clone_opt_string(s: &Option<String>) -> (res: Option<String>)
    ensures
        opt_string_view(res) == opt_string_view(*s),
{
    match s {
        Some(x) => Some(x.clone()),
        None => None,
    }
}

/// A copy of `v`.
pub fn clone_strings(v: &Vec<String>) -> (res: Vec<String>)
    ensures
        strings_view(res@) == strings_view(v@),
{
    let mut res: Vec<String> = Vec::new();
    let n = v.len();
    let mut i: usize = 0;
    while i < n
        invariant
            n == v@.len(),
            i <= n,
            strings_view(res@) == strings_view(v@.take(i as int)),
        decreases n - i,
    {
        res.push(v[i].clone());
        proof {
            assert(strings_view(v@.take(i + 1)) =~= strings_view(v@.take(i as int)).push(v@[i as int]@));
            assert(strings_view(res@) =~= strings_view(res@.drop_last()).push(res@.last()@));
        }
        i = i + 1;
    }
    proof { assert(v@.take(n as int) == v@); }
    res
}

/// A copy of `v`.
pub fn clone_pairs(v: &Vec<(String, String)>) -> (res: Vec<(String, String)>)
    ensures
        pairs_view(res@) == pairs_view(v@),
{
    let mut res: Vec<(String, String)> = Vec::new();
    let n = v.len();
    let mut i: usize = 0;
    while i < n
        invariant
            n == v@.len(),
            i <= n,
            pairs_view(res@) == pairs_view(v@.take(i as int)),
        decreases n - i,
    {
        let pair = (v[i].0.clone(), v[i].1.clone());
        res.push(pair);
        proof {
            assert(pairs_view(v@.take(i + 1)) =~= pairs_view(v@.take(i as int)).push((v@[i as int].0@, v@[i as int].1@)));
            assert(pairs_view(res@) =~= pairs_view(res@.drop_last()).push((res@.last().0@, res@.last().1@)));
        }
        i = i + 1;
    }
    proof { assert(v@.take(n as int) == v@); }
    res
}

impl LocalShellAction {
    /// A copy of this action.
    pub fn duplicate(&self) -> (res: LocalShellAction)
        ensures
            res@ == self@,
    {
        LocalShellAction {
            command: clone_strings(&self.command),
            timeout_ms: self.timeout_ms,
            working_directory: clone_opt_string(&self.working_directory),
            env: match &self.env {
                Some(e) => Some(clone_pairs(e)),
                None => None,
            },
            user: clone_opt_string(&self.user),
        }
    }
}

} // verus!
