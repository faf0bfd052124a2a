//! Records of sessions, panes, messages, blocks, attachments and progress
//! events, as the persistence layer stores them, and the grouping of a
//! session's messages into blocks.

use vstd::prelude::*;
use crate::text::text_is;

verus! {

/// The lower-case form of a text, as `str::to_lowercase` computes it.
pub uninterp spec fn lower_of(s: Seq<char>) -> Seq<char>;

/// Relies on str::to_lowercase: the lower-case form of `s`, which depends
/// on its characters alone.
#[verifier::external_body]
fn lowercase(s: &str) -> (r: String)
    ensures
        r@ == lower_of(s@),
{
    s.to_lowercase()
}

/// Status of a session.
#[derive(Debug, Clone, Copy, PartialEq, Eq, Structural)]
pub enum SessionStatus {
    Active,
    Paused,
    Completed,
    Archived,
}

/// Kind of a message.
#[derive(Debug, Clone, Copy, PartialEq, Eq, Structural)]
pub enum MessageType {
    UserInput,
    AgentOutput,
    SystemMessage,
    ToolCall,
    ToolResult,
}

/// Role of a message's author.
#[derive(Debug, Clone, Copy, PartialEq, Eq, Structural)]
pub enum MessageRole {
    User,
    Assistant,
    System,
    Tool,
}

/// Kind of a block.
#[derive(Debug, Clone, Copy, PartialEq, Eq, Structural)]
pub enum BlockType {
    Command,
    Output,
    Error,
    Conversation,
    Artifact,
}

/// Kind of an attachment.
#[derive(Debug, Clone, Copy, PartialEq, Eq, Structural)]
pub enum AttachmentType {
    File,
    Diff,
    Log,
    Image,
    Code,
}

/// The stored name of a session status.
pub open spec fn status_name(s: SessionStatus) -> Seq<char> {
    match s {
        SessionStatus::Active => "active"@,
        SessionStatus::Paused => "paused"@,
        SessionStatus::Completed => "completed"@,
        SessionStatus::Archived => "archived"@,
    }
}

/// The stored name of an attachment type.
pub open spec fn attachment_type_name(t: AttachmentType) -> Seq<char> {
    match t {
        AttachmentType::File => "file"@,
        AttachmentType::Diff => "diff"@,
        AttachmentType::Log => "log"@,
        AttachmentType::Image => "image"@,
        AttachmentType::Code => "code"@,
    }
}

impl SessionStatus {
    /// The stored name of this status.
    pub fn as_name(&self) -> (r: &'static str)
        ensures
            r@ == status_name(*self),
    {
        match self {
            SessionStatus::Active => "active",
            SessionStatus::Paused => "paused",
            SessionStatus::Completed => "completed",
            SessionStatus::Archived => "archived",
        }
    }
}

/// The sequence number that follows the largest one stored for a session;
/// zero for a session without messages.
pub fn next_sequence_number(current_max: Option<i32>) -> (r: i32)
    requires
        current_max != Some(i32::MAX),
    ensures
        r == match current_max {
            Some(m) => m + 1,
            None => 0,
        },
{
    match current_max {
        Some(m) => m + 1,
        None => 0,
    }
}

/// The stored name of a message type.
pub open spec fn message_type_name(t: MessageType) -> Seq<char> {
    match t {
        MessageType::UserInput => "userinput"@,
        MessageType::AgentOutput => "agentoutput"@,
        MessageType::SystemMessage => "systemmessage"@,
        MessageType::ToolCall => "toolcall"@,
        MessageType::ToolResult => "toolresult"@,
    }
}

/// The message type a stored name denotes; unknown names are system
/// messages.
pub open spec fn message_type_of(name: Seq<char>) -> MessageType {
    if name == "userinput"@ {
        MessageType::UserInput
    } else if name == "agentoutput"@ {
        MessageType::AgentOutput
    } else if name == "toolcall"@ {
        MessageType::ToolCall
    } else if name == "toolresult"@ {
        MessageType::ToolResult
    } else {
        MessageType::SystemMessage
    }
}

impl MessageType {
    /// The type named by `s`, compared without case; unknown names give
    /// `SystemMessage`.
    pub fn from_str(s: &str) -> (r: MessageType)
        ensures
            r == message_type_of(lower_of(s@)),
    {
        let l = lowercase(s);
        if text_is(&l, "userinput") {
            MessageType::UserInput
        } else if text_is(&l, "agentoutput") {
            MessageType::AgentOutput
        } else if text_is(&l, "toolcall") {
            MessageType::ToolCall
        } else if text_is(&l, "toolresult") {
            MessageType::ToolResult
        } else {
            MessageType::SystemMessage
        }
    }

    /// The stored name of this type.
    pub fn as_name(&self) -> (r: &'static str)
        ensures
            r@ == message_type_name(*self),
    {
        match self {
            MessageType::UserInput => "userinput",
            MessageType::AgentOutput => "agentoutput",
            MessageType::SystemMessage => "systemmessage",
            MessageType::ToolCall => "toolcall",
            MessageType::ToolResult => "toolresult",
        }
    }
}

/// The stored name of a role.
pub open spec fn role_name(r: MessageRole) -> Seq<char> {
    match r {
        MessageRole::User => "user"@,
        MessageRole::Assistant => "assistant"@,
        MessageRole::System => "system"@,
        MessageRole::Tool => "tool"@,
    }
}

/// The role a stored name denotes; unknown names are `System`.
pub open spec fn role_of(name: Seq<char>) -> MessageRole {
    if name == "user"@ {
        MessageRole::User
    } else if name == "assistant"@ {
        MessageRole::Assistant
    } else if name == "tool"@ {
        MessageRole::Tool
    } else {
        MessageRole::System
    }
}

impl MessageRole {
    /// The role named by `s`, compared without case; unknown names give
    /// `System`.
    pub fn from_str(s: &str) -> (r: MessageRole)
        ensures
            r == role_of(lower_of(s@)),
    {
        let l = lowercase(s);
        if text_is(&l, "user") {
            MessageRole::User
        } else if text_is(&l, "assistant") {
            MessageRole::Assistant
        } else if text_is(&l, "tool") {
            MessageRole::Tool
        } else {
            MessageRole::System
        }
    }

    /// The stored name of this role.
    pub fn as_name(&self) -> (r: &'static str)
        ensures
            r@ == role_name(*self),
    {
        match self {
            MessageRole::User => "user",
            MessageRole::Assistant => "assistant",
            MessageRole::System => "system",
            MessageRole::Tool => "tool",
        }
    }
}

/// The stored name of a block type.
pub open spec fn block_type_name(t: BlockType) -> Seq<char> {
    match t {
        BlockType::Command => "command"@,
        BlockType::Output => "output"@,
        BlockType::Error => "error"@,
        BlockType::Conversation => "conversation"@,
        BlockType::Artifact => "artifact"@,
    }
}

/// The block type a stored name denotes; unknown names are `Output`.
pub open spec fn block_type_of(name: Seq<char>) -> BlockType {
    if name == "command"@ {
        BlockType::Command
    } else if name == "error"@ {
        BlockType::Error
    } else if name == "conversation"@ {
        BlockType::Conversation
    } else if name == "artifact"@ {
        BlockType::Artifact
    } else {
        BlockType::Output
    }
}

impl BlockType {
    /// The type named by `s`, compared without case; unknown names give
    /// `Output`.
    pub fn from_str(s: &str) -> (r: BlockType)
        ensures
            r == block_type_of(lower_of(s@)),
    {
        let l = lowercase(s);
        if text_is(&l, "command") {
            BlockType::Command
        } else if text_is(&l, "error") {
            BlockType::Error
        } else if text_is(&l, "conversation") {
            BlockType::Conversation
        } else if text_is(&l, "artifact") {
            BlockType::Artifact
        } else {
            BlockType::Output
        }
    }

    /// The stored name of this type.
    pub fn as_name(&self) -> (r: &'static str)
        ensures
            r@ == block_type_name(*self),
    {
        match self {
            BlockType::Command => "command",
            BlockType::Output => "output",
            BlockType::Error => "error",
            BlockType::Conversation => "conversation",
            BlockType::Artifact => "artifact",
        }
    }
}

impl AttachmentType {
    /// The stored name of this type.
    pub fn as_name(&self) -> (r: &'static str)
        ensures
            r@ == attachment_type_name(*self),
    {
        match self {
            AttachmentType::File => "file",
            AttachmentType::Diff => "diff",
            AttachmentType::Log => "log",
            AttachmentType::Image => "image",
            AttachmentType::Code => "code",
        }
    }
}

/// A session record.
#[derive(Debug, Clone)]
pub struct Session {
    pub id: String,
    pub name: String,
    pub created_at: String,
    pub updated_at: String,
    pub status: String,
    pub metadata: Option<String>,
}

impl Session {
    /// A new active session with a fresh identifier, created now.
    pub fn new(name: String) -> (r: Session)
        ensures
            r.name == name,
            r.status@ == "active"@,
            r.created_at@ == r.updated_at@,
            r.metadata is None,
    {
        let now = crate::sources::now_rfc3339();
        Session {
            id: crate::sources::fresh_id_text(),
            name,
            created_at: now.clone(),
            updated_at: now,
            status: String::from_str("active"),
            metadata: None,
        }
    }
}

/// A pane record.
#[derive(Debug, Clone)]
pub struct Pane {
    pub id: String,
    pub session_id: String,
    pub name: String,
    pub position: i32,
    pub created_at: String,
    pub updated_at: String,
    pub active: bool,
}

impl Pane {
    /// A new active pane with a fresh identifier, created now.
    pub fn new(session_id: String, name: String, position: i32) -> (r: Pane)
        ensures
            r.session_id == session_id,
            r.name == name,
            r.position == position,
            r.active,
            r.created_at@ == r.updated_at@,
    {
        let now = crate::sources::now_rfc3339();
        Pane {
            id: crate::sources::fresh_id_text(),
            session_id,
            name,
            position,
            created_at: now.clone(),
            updated_at: now,
            active: true,
        }
    }
}

/// A message record.
#[derive(Debug, Clone)]
pub struct Message {
    pub id: String,
    pub session_id: String,
    pub pane_id: Option<String>,
    pub message_type: String,
    pub role: String,
    pub content: String,
    pub created_at: String,
    pub sequence_number: i32,
    pub parent_id: Option<String>,
    pub metadata: Option<String>,
}

impl Message {
    /// A new message with a fresh identifier, created now.
    pub fn new(
        session_id: String,
        pane_id: Option<String>,
        message_type: MessageType,
        role: MessageRole,
        content: String,
        sequence_number: i32,
    ) -> (r: Message)
        ensures
            r.session_id == session_id,
            r.pane_id == pane_id,
            r.message_type@ == message_type_name(message_type),
            r.role@ == role_name(role),
            r.content == content,
            r.sequence_number == sequence_number,
            r.parent_id is None,
            r.metadata is None,
    {
        Message {
            id: crate::sources::fresh_id_text(),
            session_id,
            pane_id,
            message_type: String::from_str(message_type.as_name()),
            role: String::from_str(role.as_name()),
            content,
            created_at: crate::sources::now_rfc3339(),
            sequence_number,
            parent_id: None,
            metadata: None,
        }
    }
}

/// A block record: consecutive messages shown as one unit.
#[derive(Debug, Clone)]
pub struct Block {
    pub id: String,
    pub session_id: String,
    pub pane_id: Option<String>,
    pub block_type: String,
    pub title: Option<String>,
    pub content: String,
    pub created_at: String,
    pub updated_at: String,
    pub sequence_number: i32,
    pub bookmarked: bool,
    pub metadata: Option<String>,
}

impl Block {
    /// A new block with a fresh identifier, created now, not bookmarked.
    pub fn new(
        session_id: String,
        pane_id: Option<String>,
        block_type: BlockType,
        content: String,
        sequence_number: i32,
    ) -> (r: Block)
        ensures
            r.session_id == session_id,
            r.pane_id == pane_id,
            r.block_type@ == block_type_name(block_type),
            r.title is None,
            r.content == content,
            r.sequence_number == sequence_number,
            !r.bookmarked,
            r.created_at@ == r.updated_at@,
    {
        let now = crate::sources::now_rfc3339();
        Block {
            id: crate::sources::fresh_id_text(),
            session_id,
            pane_id,
            block_type: String::from_str(block_type.as_name()),
            title: None,
            content,
            created_at: now.clone(),
            updated_at: now,
            sequence_number,
            bookmarked: false,
            metadata: None,
        }
    }
}

/// An attachment record.
#[derive(Debug, Clone)]
pub struct Attachment {
    pub id: String,
    pub block_id: Option<String>,
    pub message_id: Option<String>,
    pub attachment_type: String,
    pub filename: Option<String>,
    pub content_type: Option<String>,
    pub size_bytes: i64,
    pub storage_path: String,
    pub created_at: String,
    pub metadata: Option<String>,
}

impl Attachment {
    /// A new attachment with a fresh identifier, created now.
    pub fn new(attachment_type: AttachmentType, storage_path: String, size_bytes: i64) -> (r: Attachment)
        ensures
            r.storage_path == storage_path,
            r.size_bytes == size_bytes,
            r.block_id is None,
            r.message_id is None,
            r.attachment_type@ == attachment_type_name(attachment_type),
    {
        Attachment {
            id: crate::sources::fresh_id_text(),
            block_id: None,
            message_id: None,
            attachment_type: String::from_str(attachment_type.as_name()),
            filename: None,
            content_type: None,
            size_bytes,
            storage_path,
            created_at: crate::sources::now_rfc3339(),
            metadata: None,
        }
    }
}

/// A progress event record.
#[derive(Debug, Clone)]
pub struct ProgressEvent {
    pub id: String,
    pub session_id: String,
    pub event_type: String,
    pub description: String,
    pub created_at: String,
    pub data: Option<String>,
}

impl ProgressEvent {
    /// A new event with a fresh identifier, created now.
    pub fn new(session_id: String, event_type: String, description: String) -> (r: ProgressEvent)
        ensures
            r.session_id == session_id,
            r.event_type == event_type,
            r.description == description,
            r.data is None,
    {
        ProgressEvent {
            id: crate::sources::fresh_id_text(),
            session_id,
            event_type,
            description,
            created_at: crate::sources::now_rfc3339(),
            data: None,
        }
    }
}

} // verus!

verus! {

/// The block type a run of messages of the stored type `name` becomes.
pub open spec fn block_type_for(name: Seq<char>) -> BlockType {
    if name == "userinput"@ {
        BlockType::Command
    } else if name == "agentoutput"@ {
        BlockType::Output
    } else if name == "systemmessage"@ {
        BlockType::Conversation
    } else if name == "toolcall"@ || name == "toolresult"@ {
        BlockType::Artifact
    } else {
        BlockType::Output
    }
}

/// What a block holds: its type, pane, content and sequence number.
pub open spec fn block_view(b: Block) -> (Seq<char>, Option<String>, Seq<char>, int) {
    (b.block_type@, b.pane_id, b.content@, b.sequence_number as int)
}

/// The blocks a session's messages group into, in order: each maximal run
/// of consecutive messages of one type is a block of the type
/// `block_type_for` gives, in the pane of its first message, holding the
/// run's contents joined by newlines; blocks are numbered from zero.
pub open spec fn assembled(ms: Seq<Message>) -> Seq<(Seq<char>, Option<String>, Seq<char>, int)>
    decreases ms.len(),
{
    if ms.len() == 0 {
        Seq::empty()
    } else {
        let prev = assembled(ms.drop_last());
        let m = ms.last();
        if ms.len() > 1 && ms[ms.len() - 2].message_type@ == m.message_type@ {
            let b = prev.last();
            prev.update(prev.len() - 1, (b.0, b.1, b.2 + seq!['\n'] + m.content@, b.3))
        } else {
            prev.push((block_type_name(block_type_for(m.message_type@)), m.pane_id, m.content@, prev.len() as int))
        }
    }
}

/// `assembled` grows by at most one block per message.
pub proof fn lemma_assembled_len(ms: Seq<Message>)
    ensures
        assembled(ms).len() <= ms.len(),
        ms.len() > 0 ==> assembled(ms).len() > 0,
        forall|i: int| 0 <= i < assembled(ms).len() ==> (#[trigger] assembled(ms)[i]).3 == i,
    decreases ms.len(),
{
    if ms.len() > 0 {
        lemma_assembled_len(ms.drop_last());
    }
}

/// The block type for a stored message type name.
fn block_type_for_name(name: &String) -> (r: BlockType)
    ensures
        r == block_type_for(name@),
{
    if text_is(name, "userinput") {
        BlockType::Command
    } else if text_is(name, "agentoutput") {
        BlockType::Output
    } else if text_is(name, "systemmessage") {
        BlockType::Conversation
    } else if text_is(name, "toolcall") || text_is(name, "toolresult") {
        BlockType::Artifact
    } else {
        BlockType::Output
    }
}

/// Groups a session's messages into blocks; see `assembled`.
pub fn assemble_blocks(messages: &Vec<Message>, session_id: &str) -> (r: Vec<Block>)
    requires
        messages@.len() <= i32::MAX,
    ensures
        r@.map_values(|b: Block| block_view(b)) == assembled(messages@),
        forall|i: int| 0 <= i < r@.len() ==> (#[trigger] r@[i]).session_id@ == session_id@,
{
    let mut blocks: Vec<Block> = Vec::new();
    let mut i: usize = 0;
    proof {
        reveal_strlit("\n");
    }
    while i < messages.len()
        invariant
            i <= messages@.len() <= i32::MAX,
            blocks@.map_values(|b: Block| block_view(b)) == assembled(messages@.subrange(0, i as int)),
            forall|k: int| 0 <= k < blocks@.len() ==> (#[trigger] blocks@[k]).session_id@ == session_id@,
        decreases messages@.len() - i,
    {
        let ghost before = blocks@.map_values(|b: Block| block_view(b));
        let ghost pre = messages@.subrange(0, i as int);
        proof {
            reveal_strlit("\n");
            let s = messages@.subrange(0, i + 1);
            assert(s.drop_last() =~= pre);
            assert(s.last() == messages@[i as int]);
            if i > 0 {
                assert(s[s.len() - 2] == messages@[i - 1]);
            }
            lemma_assembled_len(pre);
        }
        let m = &messages[i];
        if i > 0 && messages[i - 1].message_type.eq(&m.message_type) {
            let ghost full = blocks@;
            let last = blocks.pop().unwrap();
            let ghost lv = block_view(last);
            proof {
                assert(before.last() == lv);
                assert(blocks@.map_values(|b: Block| block_view(b)) =~= before.drop_last());
            }
            let mut content = last.content;
            content.append("\n");
            content.append(m.content.as_str());
            let joined = Block { content, ..last };
            proof {
                assert(block_view(joined) == (lv.0, lv.1, lv.2 + seq!['\n'] + m.content@, lv.3));
            }
            blocks.push(joined);
            proof {
                assert(blocks@.map_values(|b: Block| block_view(b)) =~= before.update(
                    before.len() - 1,
                    (lv.0, lv.1, lv.2 + seq!['\n'] + m.content@, lv.3),
                ));
                assert(blocks@.map_values(|b: Block| block_view(b)) =~= assembled(messages@.subrange(0, i + 1)));
            }
        } else {
            let n = blocks.len();
            let b = Block::new(
                String::from_str(session_id),
                m.pane_id.clone(),
                block_type_for_name(&m.message_type),
                m.content.clone(),
                n as i32,
            );
            blocks.push(b);
            proof {
                assert(blocks@.map_values(|b: Block| block_view(b)) =~= assembled(messages@.subrange(0, i + 1)));
            }
        }
        i = i + 1;
    }
    proof {
        assert(messages@.subrange(0, i as int) =~= messages@);
    }
    blocks
}

} // verus!
