//! Provider-neutral message format. JSON payloads (tool arguments, tool
//! parameter schemas) are carried as their compact JSON text.
use vstd::prelude::*;

verus! {

/// Author of a message.
#[derive(Debug, Clone, Copy, PartialEq, Eq, Structural)]
pub enum MessageRole {
    User,
    Assistant,
    Tool,
}

/// Where an image comes from.
#[derive(Debug, Clone)]
pub enum ImageSource {
    /// A `data:` URL (base64).
    DataUrl { url: String },
    /// A local file, read and encoded when the request is built.
    FilePath { path: String, mime_type: Option<String> },
}

/// One block of message content.
#[derive(Debug, Clone)]
pub enum ContentBlock {
    Text { text: String },
    Image { source: ImageSource },
}

/// A tool invocation requested by the model; `arguments` is JSON text.
#[derive(Debug, Clone)]
pub struct ToolCall {
    pub id: String,
    pub name: String,
    pub arguments: String,
}

/// A tool offered to the model; `parameters` is a JSON Schema as JSON text.
#[derive(Debug, Clone)]
pub struct ToolDefinition {
    pub name: String,
    pub description: String,
    pub parameters: String,
}

/// A message in the provider-neutral format.
#[derive(Debug, Clone)]
pub struct UnifiedMessage {
    pub role: MessageRole,
    pub content: Vec<ContentBlock>,
    pub tool_calls: Option<Vec<ToolCall>>,
    pub tool_call_id: Option<String>,
    /// Chain-of-thought text that some models need sent back.
    pub reasoning_content: Option<String>,
}

/// Result of a non-streaming completion that may request tools.
#[derive(Debug, Clone)]
pub enum ChatSyncResult {
    Content(String),
    ToolCalls { calls: Vec<ToolCall>, reasoning: Option<String> },
}

/// A provider-neutral streaming event sent to the front end.
#[derive(Debug, Clone)]
pub enum StreamChunk {
    TextDelta { delta: String },
    ToolCallStart { id: String, name: String },
    ToolCallDelta { id: String, arguments_delta: String },
    ToolCallEnd { id: String },
    Done { finish_reason: Option<String> },
    ThinkingDelta { delta: String },
    ThinkingDone {},
    Error { message: String },
    ToolResult { call_id: String, name: String, success: bool, content: String },
    /// Progress information, not part of the conversation text.
    StatusDelta { message: String },
}

/// Abstract image source.
pub ghost enum ImageView {
    DataUrl(Seq<char>),
    FilePath(Seq<char>, Option<Seq<char>>),
}

/// Abstract content block.
pub ghost enum BlockView {
    Text(Seq<char>),
    Image(ImageView),
}

/// Abstract tool call.
pub ghost struct CallView {
    pub id: Seq<char>,
    pub name: Seq<char>,
    pub arguments: Seq<char>,
}

/// Abstract message.
pub ghost struct MsgView {
    pub role: MessageRole,
    pub content: Seq<BlockView>,
    pub tool_calls: Option<Seq<CallView>>,
    pub tool_call_id: Option<Seq<char>>,
    pub reasoning_content: Option<Seq<char>>,
}

pub open spec fn opt_view(o: Option<String>) -> Option<Seq<char>> {
    match o {
        Some(s) => Some(s@),
        None => None,
    }
}

impl View for ImageSource {
    type V = ImageView;

    open spec fn view(&self) -> ImageView {
        match self {
            ImageSource::DataUrl { url } => ImageView::DataUrl(url@),
            ImageSource::FilePath { path, mime_type } => ImageView::FilePath(
                path@,
                opt_view(*mime_type),
            ),
        }
    }
}

impl View for ContentBlock {
    type V = BlockView;

    open spec fn view(&self) -> BlockView {
        match self {
            ContentBlock::Text { text } => BlockView::Text(text@),
            ContentBlock::Image { source } => BlockView::Image(source@),
        }
    }
}

impl View for ToolCall {
    type V = CallView;

    open spec fn view(&self) -> CallView {
        CallView { id: self.id@, name: self.name@, arguments: self.arguments@ }
    }
}

pub open spec fn blocks_view(v: Seq<ContentBlock>) -> Seq<BlockView> {
    v.map_values(|b: ContentBlock| b@)
}

pub open spec fn calls_view(v: Seq<ToolCall>) -> Seq<CallView> {
    v.map_values(|c: ToolCall| c@)
}

impl View for UnifiedMessage {
    type V = MsgView;

    open spec fn view(&self) -> MsgView {
        MsgView {
            role: self.role,
            content: blocks_view(self.content@),
            tool_calls: match self.tool_calls {
                Some(cs) => Some(calls_view(cs@)),
                None => None,
            },
            tool_call_id: opt_view(self.tool_call_id),
            reasoning_content: opt_view(self.reasoning_content),
        }
    }
}

/// Abstract streaming event.
pub ghost enum ChunkView {
    TextDelta(Seq<char>),
    ToolCallStart(Seq<char>, Seq<char>),
    ToolCallDelta(Seq<char>, Seq<char>),
    ToolCallEnd(Seq<char>),
    Done(Option<Seq<char>>),
    ThinkingDelta(Seq<char>),
    ThinkingDone,
    Error(Seq<char>),
    ToolResult(Seq<char>, Seq<char>, bool, Seq<char>),
    StatusDelta(Seq<char>),
}

impl View for StreamChunk {
    type V = ChunkView;

    open spec fn view(&self) -> ChunkView {
        match self {
            StreamChunk::TextDelta { delta } => ChunkView::TextDelta(delta@),
            StreamChunk::ToolCallStart { id, name } => ChunkView::ToolCallStart(id@, name@),
            StreamChunk::ToolCallDelta { id, arguments_delta } => ChunkView::ToolCallDelta(
                id@,
                arguments_delta@,
            ),
            StreamChunk::ToolCallEnd { id } => ChunkView::ToolCallEnd(id@),
            StreamChunk::Done { finish_reason } => ChunkView::Done(opt_view(*finish_reason)),
            StreamChunk::ThinkingDelta { delta } => ChunkView::ThinkingDelta(delta@),
            StreamChunk::ThinkingDone {  } => ChunkView::ThinkingDone,
            StreamChunk::Error { message } => ChunkView::Error(message@),
            StreamChunk::ToolResult { call_id, name, success, content } => ChunkView::ToolResult(
                call_id@,
                name@,
                *success,
                content@,
            ),
            StreamChunk::StatusDelta { message } => ChunkView::StatusDelta(message@),
        }
    }
}

/// Views of a sequence of streaming events.
pub open spec fn chunks_view(v: Seq<StreamChunk>) -> Seq<ChunkView> {
    v.map_values(|c: StreamChunk| c@)
}

/// Views of a sequence of messages.
pub open spec fn msgs_view(v: Seq<UnifiedMessage>) -> Seq<MsgView> {
    v.map_values(|m: UnifiedMessage| m@)
}

impl UnifiedMessage {
    /// A message holding a single text block and nothing else.
    pub fn text(role: MessageRole, text: String) -> (m: UnifiedMessage)
        ensures
            m@ == (MsgView {
                role,
                content: seq![BlockView::Text(text@)],
                tool_calls: None,
                tool_call_id: None,
                reasoning_content: None,
            }),
    {
        let mut content: Vec<ContentBlock> = Vec::new();
        content.push(ContentBlock::Text { text });
        let m = UnifiedMessage {
            role,
            content,
            tool_calls: None,
            tool_call_id: None,
            reasoning_content: None,
        };
        assert(m@.content =~= seq![BlockView::Text(text@)]);
        m
    }
}

} // verus!
