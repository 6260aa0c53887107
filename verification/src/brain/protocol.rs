//! What the gateway and its workers say to each other.
use vstd::prelude::*;

use crate::json::{self, Json, JsonModel, Num};
use crate::text;

verus! {

// ── Messages on the wire ────────────────────────────────────────────────────

/// A message between the gateway and a worker.
pub enum WorkerMessage {
    Register(RegisterMsg),
    Heartbeat(HeartbeatMsg),
    Ping,
    Task(TaskBundle),
    Chunk(ChunkMessage),
    Done(DoneMessage),
    Error(ErrorMessage),
    Cancel(CancelMessage),
}

/// All that a worker needs for a completion.
pub struct TaskBundle {
    pub request_id: String,
    pub session_id: String,
    /// The model's name as the worker knows it.
    pub model: String,
    pub messages: Vec<Message>,
    pub max_tokens: u32,
    pub temperature: Num,
    pub top_p: Option<Num>,
    pub top_k: Option<u32>,
    pub stream: bool,
    pub tools: Option<Vec<Tool>>,
    pub tool_choice: Option<ToolChoice>,
    pub parallel_tool_calls: Option<bool>,
    pub stop: Option<Vec<String>>,
}

#[verifier::ext_equal]
pub struct TaskModel {
    pub request_id: Seq<char>,
    pub session_id: Seq<char>,
    pub model: Seq<char>,
    pub messages: Seq<MsgModel>,
    pub max_tokens: u32,
    pub temperature: Num,
    pub top_p: Option<Num>,
    pub top_k: Option<u32>,
    pub stream: bool,
    pub tools: Option<Seq<ToolModel>>,
    pub tool_choice: Option<ChoiceModel>,
    pub parallel_tool_calls: Option<bool>,
    pub stop: Option<Seq<Seq<char>>>,
}

impl View for TaskBundle {
    type V = TaskModel;

    open spec fn view(&self) -> TaskModel {
        TaskModel {
            request_id: self.request_id@,
            session_id: self.session_id@,
            model: self.model@,
            messages: msg_models(self.messages@),
            max_tokens: self.max_tokens,
            temperature: self.temperature,
            top_p: self.top_p,
            top_k: self.top_k,
            stream: self.stream,
            tools: opt_tool_models(self.tools),
            tool_choice: opt_choice(self.tool_choice),
            parallel_tool_calls: self.parallel_tool_calls,
            stop: opt_texts(self.stop),
        }
    }
}

/// A worker introduces itself.
pub struct RegisterMsg {
    pub worker_id: String,
    pub model: String,
    pub gpu: String,
    pub vram_free_mb: u32,
    pub max_context: u32,
    pub active_requests: u32,
    /// The wire format that the worker's backend speaks, `openai` unless it says otherwise.
    pub api_type: String,
}

/// A worker is alive.
pub struct HeartbeatMsg {
    pub worker_id: String,
    pub model: String,
    pub vram_free_mb: u32,
    pub active_requests: u32,
}

/// A piece of an answer: a line of the worker's event stream.
pub struct ChunkMessage {
    pub request_id: String,
    pub delta: String,
    pub is_tool_call: bool,
}

/// The end of an answer.
pub struct DoneMessage {
    pub request_id: String,
    pub finish_reason: FinishReason,
    pub prompt_tokens: u32,
    pub comp_tokens: u32,
}

/// A task failed; `code` is the HTTP status for the client.
pub struct ErrorMessage {
    pub request_id: String,
    pub message: String,
    pub code: u16,
}

/// A task is no longer wanted.
pub struct CancelMessage {
    pub request_id: String,
}

/// The wire format of a worker that does not name one.
pub fn default_worker_api_type() -> (r: String)
    ensures
        r@ == "openai"@,
{
    text::owned("openai")
}

// ── Chat messages ───────────────────────────────────────────────────────────

pub struct Message {
    pub role: String,
    pub content: MessageContent,
    /// The tool calls of an assistant message.
    pub tool_calls: Option<Vec<ToolCall>>,
    /// The tool call that a tool message answers.
    pub tool_call_id: Option<String>,
}

#[verifier::ext_equal]
pub struct MsgModel {
    pub role: Seq<char>,
    pub content: ContentModel,
    pub tool_calls: Option<Seq<CallModel>>,
    pub tool_call_id: Option<Seq<char>>,
}

impl View for Message {
    type V = MsgModel;

    open spec fn view(&self) -> MsgModel {
        MsgModel {
            role: self.role@,
            content: self.content@,
            tool_calls: opt_call_models(self.tool_calls),
            tool_call_id: text::opt_text(self.tool_call_id),
        }
    }
}

/// A string, or a list of typed parts.
pub enum MessageContent {
    Text(String),
    Parts(Vec<ContentPart>),
}

#[verifier::ext_equal]
pub enum ContentModel {
    Text(Seq<char>),
    Parts(Seq<PartModel>),
}

impl View for MessageContent {
    type V = ContentModel;

    open spec fn view(&self) -> ContentModel {
        match *self {
            MessageContent::Text(s) => ContentModel::Text(s@),
            MessageContent::Parts(p) => ContentModel::Parts(part_models(p@)),
        }
    }
}

pub struct ContentPart {
    pub part_type: String,
    pub text: Option<String>,
}

#[verifier::ext_equal]
pub struct PartModel {
    pub part_type: Seq<char>,
    pub text: Option<Seq<char>>,
}

impl View for ContentPart {
    type V = PartModel;

    open spec fn view(&self) -> PartModel {
        PartModel { part_type: self.part_type@, text: text::opt_text(self.text) }
    }
}

pub open spec fn msg_models(s: Seq<Message>) -> Seq<MsgModel> {
    s.map_values(|m: Message| m@)
}

pub open spec fn part_models(s: Seq<ContentPart>) -> Seq<PartModel> {
    s.map_values(|p: ContentPart| p@)
}

pub open spec fn call_models(s: Seq<ToolCall>) -> Seq<CallModel> {
    s.map_values(|c: ToolCall| c@)
}

pub open spec fn tool_models(s: Seq<Tool>) -> Seq<ToolModel> {
    s.map_values(|t: Tool| t@)
}

pub open spec fn opt_call_models(o: Option<Vec<ToolCall>>) -> Option<Seq<CallModel>> {
    match o {
        Some(v) => Some(call_models(v@)),
        None => None,
    }
}

pub open spec fn opt_tool_models(o: Option<Vec<Tool>>) -> Option<Seq<ToolModel>> {
    match o {
        Some(v) => Some(tool_models(v@)),
        None => None,
    }
}

pub open spec fn opt_choice(o: Option<ToolChoice>) -> Option<ChoiceModel> {
    match o {
        Some(c) => Some(c@),
        None => None,
    }
}

pub open spec fn opt_texts(o: Option<Vec<String>>) -> Option<Seq<Seq<char>>> {
    match o {
        Some(v) => Some(text::texts(v@)),
        None => None,
    }
}

pub proof fn msg_models_push(s: Seq<Message>, m: Message)
    ensures
        msg_models(s.push(m)) == msg_models(s).push(m@),
{
    assert(msg_models(s.push(m)) =~= msg_models(s).push(m@));
}

pub proof fn call_models_push(s: Seq<ToolCall>, c: ToolCall)
    ensures
        call_models(s.push(c)) == call_models(s).push(c@),
{
    assert(call_models(s.push(c)) =~= call_models(s).push(c@));
}

pub proof fn tool_models_push(s: Seq<Tool>, t: Tool)
    ensures
        tool_models(s.push(t)) == tool_models(s).push(t@),
{
    assert(tool_models(s.push(t)) =~= tool_models(s).push(t@));
}

/// The texts of the text parts.
pub open spec fn part_texts(parts: Seq<PartModel>) -> Seq<Seq<char>>
    decreases parts.len(),
{
    if parts.len() == 0 {
        seq![]
    } else {
        let before = part_texts(parts.drop_last());
        match parts.last().text {
            Some(t) => if parts.last().part_type == "text"@ {
                before.push(t)
            } else {
                before
            },
            None => before,
        }
    }
}

/// The content as text: parts give the text of each text part, a line each.
pub open spec fn content_text(c: ContentModel) -> Seq<char> {
    match c {
        ContentModel::Text(s) => s,
        ContentModel::Parts(parts) => text::join(part_texts(parts), "\n"@),
    }
}

/// How many bytes of UTF-8 a text has.
pub open spec fn byte_len(s: Seq<char>) -> nat {
    vstd::utf8::encode_utf8(s).len()
}

pub open spec fn part_len(p: PartModel) -> nat {
    match p.text {
        Some(t) => byte_len(t),
        None => 0,
    }
}

pub open spec fn parts_len(parts: Seq<PartModel>) -> nat
    decreases parts.len(),
{
    if parts.len() == 0 {
        0
    } else {
        parts_len(parts.drop_last()) + part_len(parts.last())
    }
}

/// How many bytes of text the content has.
pub open spec fn content_len(c: ContentModel) -> nat {
    match c {
        ContentModel::Text(s) => byte_len(s),
        ContentModel::Parts(parts) => parts_len(parts),
    }
}

proof fn parts_len_grows(parts: Seq<PartModel>, k: int)
    requires
        0 <= k <= parts.len(),
    ensures
        parts_len(parts.take(k)) <= parts_len(parts),
    decreases parts.len() - k,
{
    if k < parts.len() {
        assert(parts.take(k + 1).drop_last() =~= parts.take(k));
        parts_len_grows(parts, k + 1);
    } else {
        assert(parts.take(k) =~= parts);
    }
}

/// `a + b`, or the largest number where that is too large.
pub fn sat_sum(a: u64, b: u64) -> (r: u64)
    ensures
        r == (if a + b <= u64::MAX {
            a + b
        } else {
            u64::MAX as int
        }),
{
    if a <= u64::MAX - b {
        a + b
    } else {
        u64::MAX
    }
}

/// `n`, or the largest 64-bit number where `n` is larger.
pub open spec fn capped(n: nat) -> nat {
    if n <= u64::MAX {
        n
    } else {
        u64::MAX as nat
    }
}

impl MessageContent {
    /// The text of plain content; nothing of parts.
    pub fn as_str(&self) -> (r: &str)
        ensures
            r@ == match self@ {
                ContentModel::Text(s) => s,
                ContentModel::Parts(_) => ""@,
            },
    {
        match self {
            MessageContent::Text(s) => s.as_str(),
            MessageContent::Parts(_) => "",
        }
    }

    /// The content as text: unlike `as_str`, this keeps the text of parts.
    pub fn to_text(&self) -> (r: String)
        ensures
            r@ == content_text(self@),
    {
        match self {
            MessageContent::Text(s) => s.clone(),
            MessageContent::Parts(parts) => {
                let ghost all = part_models(parts@);
                let mut lines: Vec<String> = Vec::new();
                let mut i: usize = 0;
                while i < parts.len()
                    invariant
                        i <= parts.len(),
                        all == part_models(parts@),
                        text::texts(lines@) == part_texts(all.take(i as int)),
                    decreases parts.len() - i,
                {
                    proof {
                        assert(all.take(i + 1).drop_last() =~= all.take(i as int));
                        assert(all.take(i + 1).last() == parts@[i as int]@);
                    }
                    match &parts[i].text {
                        Some(t) => {
                            if text::str_eq(parts[i].part_type.as_str(), "text") {
                                let line = t.clone();
                                proof {
                                    text::texts_push(lines@, line);
                                }
                                lines.push(line);
                            }
                        },
                        None => {},
                    }
                    i = i + 1;
                }
                assert(all.take(all.len() as int) =~= all);
                text::join_texts(&lines, "\n")
            },
        }
    }

    /// How many bytes of text the content has.
    pub fn len(&self) -> (r: usize)
        requires
            content_len(self@) <= usize::MAX,
        ensures
            r == content_len(self@),
    {
        match self {
            MessageContent::Text(s) => text::byte_count(s.as_str()),
            MessageContent::Parts(parts) => {
                let ghost all = part_models(parts@);
                let mut total: usize = 0;
                let mut i: usize = 0;
                while i < parts.len()
                    invariant
                        i <= parts.len(),
                        all == part_models(parts@),
                        parts_len(all) <= usize::MAX,
                        total == parts_len(all.take(i as int)),
                    decreases parts.len() - i,
                {
                    proof {
                        assert(all.take(i + 1).drop_last() =~= all.take(i as int));
                        assert(all.take(i + 1).last() == parts@[i as int]@);
                        parts_len_grows(all, i + 1);
                    }
                    total = total + parts[i].text_len();
                    i = i + 1;
                }
                assert(all.take(all.len() as int) =~= all);
                total
            },
        }
    }

    /// How many bytes of text the content has, as far as 64 bits can count.
    pub fn counted(&self) -> (r: u64)
        ensures
            r == capped(content_len(self@)),
    {
        match self {
            MessageContent::Text(s) => text::byte_count(s.as_str()) as u64,
            MessageContent::Parts(parts) => {
                let ghost all = part_models(parts@);
                let mut total: u64 = 0;
                let mut i: usize = 0;
                while i < parts.len()
                    invariant
                        i <= parts.len(),
                        all == part_models(parts@),
                        total == capped(parts_len(all.take(i as int))),
                    decreases parts.len() - i,
                {
                    proof {
                        assert(all.take(i + 1).drop_last() =~= all.take(i as int));
                        assert(all.take(i + 1).last() == parts@[i as int]@);
                    }
                    total = sat_sum(total, parts[i].text_len() as u64);
                    i = i + 1;
                }
                assert(all.take(all.len() as int) =~= all);
                total
            },
        }
    }

    pub fn dup(&self) -> (r: MessageContent)
        ensures
            r@ == self@,
    {
        match self {
            MessageContent::Text(s) => MessageContent::Text(s.clone()),
            MessageContent::Parts(parts) => {
                let ghost all = part_models(parts@);
                let mut out: Vec<ContentPart> = Vec::new();
                let mut i: usize = 0;
                while i < parts.len()
                    invariant
                        i <= parts.len(),
                        all == part_models(parts@),
                        part_models(out@) == all.take(i as int),
                    decreases parts.len() - i,
                {
                    let ghost before = out@;
                    let part = ContentPart {
                        part_type: parts[i].part_type.clone(),
                        text: text::dup_opt(&parts[i].text),
                    };
                    out.push(part);
                    proof {
                        assert(part_models(out@) =~= part_models(before).push(part@));
                        assert(all.take(i + 1) =~= all.take(i as int).push(part@));
                    }
                    i = i + 1;
                }
                assert(all.take(all.len() as int) =~= all);
                MessageContent::Parts(out)
            },
        }
    }
}

impl ContentPart {
    fn text_len(&self) -> (r: usize)
        ensures
            r == part_len(self@),
    {
        match &self.text {
            Some(t) => text::byte_count(t.as_str()),
            None => 0,
        }
    }
}

impl Message {
    pub fn dup(&self) -> (r: Message)
        ensures
            r@ == self@,
    {
        Message {
            role: self.role.clone(),
            content: self.content.dup(),
            tool_calls: match &self.tool_calls {
                Some(calls) => Some(dup_calls(calls)),
                None => None,
            },
            tool_call_id: text::dup_opt(&self.tool_call_id),
        }
    }
}

pub fn dup_messages(v: &Vec<Message>) -> (r: Vec<Message>)
    ensures
        msg_models(r@) == msg_models(v@),
{
    let ghost all = msg_models(v@);
    let mut out: Vec<Message> = Vec::new();
    let mut i: usize = 0;
    while i < v.len()
        invariant
            i <= v.len(),
            all == msg_models(v@),
            msg_models(out@) == all.take(i as int),
        decreases v.len() - i,
    {
        let m = v[i].dup();
        proof {
            msg_models_push(out@, m);
            assert(all.take(i + 1) =~= all.take(i as int).push(m@));
        }
        out.push(m);
        i = i + 1;
    }
    assert(all.take(all.len() as int) =~= all);
    out
}

// ── Tools ───────────────────────────────────────────────────────────────────

pub struct Tool {
    pub tool_type: String,
    pub function: FunctionDef,
}

pub struct FunctionDef {
    pub name: String,
    pub description: Option<String>,
    /// A JSON schema.
    pub parameters: Option<Json>,
}

#[verifier::ext_equal]
pub struct ToolModel {
    pub tool_type: Seq<char>,
    pub name: Seq<char>,
    pub description: Option<Seq<char>>,
    pub parameters: Option<JsonModel>,
}

impl View for Tool {
    type V = ToolModel;

    open spec fn view(&self) -> ToolModel {
        ToolModel {
            tool_type: self.tool_type@,
            name: self.function.name@,
            description: text::opt_text(self.function.description),
            parameters: json::opt_model(self.function.parameters),
        }
    }
}

impl Tool {
    pub fn dup(&self) -> (r: Tool)
        ensures
            r@ == self@,
    {
        Tool {
            tool_type: self.tool_type.clone(),
            function: FunctionDef {
                name: self.function.name.clone(),
                description: text::dup_opt(&self.function.description),
                parameters: json::dup_opt_json(&self.function.parameters),
            },
        }
    }
}

pub fn dup_tools(v: &Vec<Tool>) -> (r: Vec<Tool>)
    ensures
        tool_models(r@) == tool_models(v@),
{
    let ghost all = tool_models(v@);
    let mut out: Vec<Tool> = Vec::new();
    let mut i: usize = 0;
    while i < v.len()
        invariant
            i <= v.len(),
            all == tool_models(v@),
            tool_models(out@) == all.take(i as int),
        decreases v.len() - i,
    {
        let t = v[i].dup();
        proof {
            tool_models_push(out@, t);
            assert(all.take(i + 1) =~= all.take(i as int).push(t@));
        }
        out.push(t);
        i = i + 1;
    }
    assert(all.take(all.len() as int) =~= all);
    out
}

pub fn dup_opt_tools(o: &Option<Vec<Tool>>) -> (r: Option<Vec<Tool>>)
    ensures
        opt_tool_models(r) == opt_tool_models(*o),
{
    match o {
        Some(v) => Some(dup_tools(v)),
        None => None,
    }
}

/// `auto`, `required`, `none`, or one function.
pub enum ToolChoice {
    Mode(String),
    Specific(SpecificToolChoice),
}

pub struct SpecificToolChoice {
    pub choice_type: String,
    pub function: ToolChoiceFunction,
}

pub struct ToolChoiceFunction {
    pub name: String,
}

#[verifier::ext_equal]
pub enum ChoiceModel {
    Mode(Seq<char>),
    Specific { choice_type: Seq<char>, name: Seq<char> },
}

impl View for ToolChoice {
    type V = ChoiceModel;

    open spec fn view(&self) -> ChoiceModel {
        match *self {
            ToolChoice::Mode(m) => ChoiceModel::Mode(m@),
            ToolChoice::Specific(s) => ChoiceModel::Specific {
                choice_type: s.choice_type@,
                name: s.function.name@,
            },
        }
    }
}

impl ToolChoice {
    pub fn dup(&self) -> (r: ToolChoice)
        ensures
            r@ == self@,
    {
        match self {
            ToolChoice::Mode(m) => ToolChoice::Mode(m.clone()),
            ToolChoice::Specific(s) => ToolChoice::Specific(
                SpecificToolChoice {
                    choice_type: s.choice_type.clone(),
                    function: ToolChoiceFunction { name: s.function.name.clone() },
                },
            ),
        }
    }
}

pub fn dup_opt_choice(o: &Option<ToolChoice>) -> (r: Option<ToolChoice>)
    ensures
        opt_choice(r) == opt_choice(*o),
{
    match o {
        Some(c) => Some(c.dup()),
        None => None,
    }
}

pub struct ToolCall {
    pub id: String,
    pub call_type: String,
    pub function: ToolCallFunction,
}

pub struct ToolCallFunction {
    pub name: String,
    /// JSON, as text.
    pub arguments: String,
}

#[verifier::ext_equal]
pub struct CallModel {
    pub id: Seq<char>,
    pub call_type: Seq<char>,
    pub name: Seq<char>,
    pub arguments: Seq<char>,
}

impl View for ToolCall {
    type V = CallModel;

    open spec fn view(&self) -> CallModel {
        CallModel {
            id: self.id@,
            call_type: self.call_type@,
            name: self.function.name@,
            arguments: self.function.arguments@,
        }
    }
}

impl ToolCall {
    pub fn dup(&self) -> (r: ToolCall)
        ensures
            r@ == self@,
    {
        ToolCall {
            id: self.id.clone(),
            call_type: self.call_type.clone(),
            function: ToolCallFunction {
                name: self.function.name.clone(),
                arguments: self.function.arguments.clone(),
            },
        }
    }
}

pub fn dup_calls(v: &Vec<ToolCall>) -> (r: Vec<ToolCall>)
    ensures
        call_models(r@) == call_models(v@),
{
    let ghost all = call_models(v@);
    let mut out: Vec<ToolCall> = Vec::new();
    let mut i: usize = 0;
    while i < v.len()
        invariant
            i <= v.len(),
            all == call_models(v@),
            call_models(out@) == all.take(i as int),
        decreases v.len() - i,
    {
        let c = v[i].dup();
        proof {
            call_models_push(out@, c);
            assert(all.take(i + 1) =~= all.take(i as int).push(c@));
        }
        out.push(c);
        i = i + 1;
    }
    assert(all.take(all.len() as int) =~= all);
    out
}

/// Why a worker's answer ended.
#[derive(Clone, Copy, PartialEq, Eq, Structural)]
pub enum FinishReason {
    Stop,
    ToolCalls,
    Length,
    ContentFilter,
    Error,
}

/// The OpenAI word for a finish reason; a failed answer is said to have stopped.
pub open spec fn finish_word(r: FinishReason) -> Seq<char> {
    match r {
        FinishReason::Stop => "stop"@,
        FinishReason::ToolCalls => "tool_calls"@,
        FinishReason::Length => "length"@,
        FinishReason::ContentFilter => "content_filter"@,
        FinishReason::Error => "stop"@,
    }
}

impl FinishReason {
    pub fn as_str(&self) -> (r: &str)
        ensures
            r@ == finish_word(*self),
    {
        match self {
            FinishReason::Stop => "stop",
            FinishReason::ToolCalls => "tool_calls",
            FinishReason::Length => "length",
            FinishReason::ContentFilter => "content_filter",
            FinishReason::Error => "stop",
        }
    }
}

} // verus!
