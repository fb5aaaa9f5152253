//! Data model of the OpenCode server API: the requests, responses and events
//! that the client exchanges with the server.
//!
//! Numbers the server sends as floating point are held here by their IEEE-754
//! bit patterns (`u64`), and JSON values by their compact JSON text, so that the
//! model stays within plain integers and strings.
use vstd::prelude::*;
use crate::secret::{ExtraMaskedMap, SecretString};

verus! {

/// A JSON value, held by its compact JSON text. When the value is a JSON
/// string, `str_value` holds the string itself.
#[derive(Clone)]
pub struct JsonValue {
    pub json: String,
    pub str_value: Option<String>,
}

/// Server health and version.
#[derive(Clone)]
pub struct HealthResponse {
    pub healthy: bool,
    pub version: String,
}

/// Output format for an AI response.
#[derive(Clone)]
pub enum OutputFormat {
    /// Plain text output
    Text,
    /// Structured JSON output matching a schema
    JsonSchema { schema: JsonValue, retry_count: Option<i64> },
}

#[derive(Clone)]
pub struct LogRequest {
    pub service: String,
    pub level: String,
    pub message: String,
    pub extra: ExtraMaskedMap<JsonValue>,
}

#[derive(Clone)]
pub struct Agent {
    pub name: String,
    pub description: Option<String>,
    pub mode: String,
    pub native: Option<bool>,
    pub hidden: Option<bool>,
    /// Bits of the `topP` sampling parameter.
    pub top_p: Option<u64>,
    /// Bits of the temperature.
    pub temperature: Option<u64>,
    pub color: Option<String>,
    pub permission: Vec<PermissionRule>,
    pub model: Option<AgentModelSpec>,
    pub variant: Option<String>,
    pub prompt: Option<String>,
    pub options: ExtraMaskedMap<JsonValue>,
    pub steps: Option<i64>,
}

#[derive(Clone)]
pub struct AgentModelSpec {
    pub model_id: String,
    pub provider_id: String,
}

#[derive(Clone)]
pub struct Skill {
    pub name: String,
    pub description: String,
    pub location: String,
    pub content: String,
}

pub struct Project {
    pub id: String,
    pub worktree: String,
    pub vcs: Option<String>,
    pub name: Option<String>,
    pub icon: Option<ProjectIcon>,
    pub commands: Option<ProjectCommands>,
    pub time: ProjectTime,
    pub sandboxes: Vec<String>,
}

/// Whether `a` is a copy of `b`: the same fields, the same sandboxes.
pub open spec fn project_copy(a: Project, b: Project) -> bool {
    &&& a.id == b.id
    &&& a.worktree == b.worktree
    &&& a.vcs == b.vcs
    &&& a.name == b.name
    &&& a.icon == b.icon
    &&& a.commands == b.commands
    &&& a.time == b.time
    &&& a.sandboxes@ == b.sandboxes@
}

impl Clone for Project {
    fn clone(&self) -> (r: Self)
        ensures
            project_copy(r, *self),
    {
        let mut sandboxes: Vec<String> = Vec::new();
        let mut i: usize = 0;
        while i < self.sandboxes.len()
            invariant
                i <= self.sandboxes.len(),
                sandboxes@ == self.sandboxes@.take(i as int),
            decreases self.sandboxes.len() - i,
        {
            sandboxes.push(self.sandboxes[i].clone());
            assert(sandboxes@ =~= self.sandboxes@.take(i + 1));
            i += 1;
        }
        assert(sandboxes@ =~= self.sandboxes@);
        Project {
            id: self.id.clone(),
            worktree: self.worktree.clone(),
            vcs: clone_opt_string(&self.vcs),
            name: clone_opt_string(&self.name),
            icon: match &self.icon {
                Some(i) => Some(i.clone()),
                None => None,
            },
            commands: match &self.commands {
                Some(c) => Some(c.clone()),
                None => None,
            },
            time: self.time,
            sandboxes,
        }
    }
}

/// A copy of an optional string.
pub fn clone_opt_string(s: &Option<String>) -> (r: Option<String>)
    ensures
        r == *s,
{
    match s {
        Some(v) => Some(v.clone()),
        None => None,
    }
}

pub struct ProjectIcon {
    pub url: Option<String>,
    /// The icon override (`override` on the wire).
    pub override_icon: Option<String>,
    pub color: Option<String>,
}

impl Clone for ProjectIcon {
    fn clone(&self) -> (r: Self)
        ensures
            r == *self,
    {
        ProjectIcon {
            url: clone_opt_string(&self.url),
            override_icon: clone_opt_string(&self.override_icon),
            color: clone_opt_string(&self.color),
        }
    }
}

pub struct ProjectCommands {
    pub start: Option<String>,
}

impl Clone for ProjectCommands {
    fn clone(&self) -> (r: Self)
        ensures
            r == *self,
    {
        ProjectCommands { start: clone_opt_string(&self.start) }
    }
}

#[derive(Clone)]
pub struct ProjectUpdateRequest {
    pub name: Option<String>,
    pub icon: Option<ProjectIcon>,
    pub commands: Option<ProjectCommands>,
}

#[derive(Clone)]
pub struct ProjectSummary {
    pub id: String,
    pub name: Option<String>,
    pub worktree: String,
}

/// Project timestamps, as bits of the server's floating-point milliseconds.
#[derive(Clone, Copy)]
pub struct ProjectTime {
    pub created: u64,
    pub updated: u64,
    pub initialized: Option<u64>,
}

#[derive(Clone)]
pub struct PathInfo {
    pub path: String,
    pub exists: Option<bool>,
}

#[derive(Clone)]
pub struct Config {
    pub model: Option<String>,
    pub extra: ExtraMaskedMap<JsonValue>,
}

#[derive(Clone)]
pub struct Provider {
    pub id: String,
    pub name: String,
    pub source: String,
    pub env: Vec<String>,
    pub key: Option<SecretString>,
    pub options: ExtraMaskedMap<JsonValue>,
    pub models: ExtraMaskedMap<Model>,
}

#[derive(Clone)]
pub struct Model {
    pub id: String,
    pub provider_id: String,
    pub api: ModelApi,
    pub name: String,
    pub family: Option<String>,
    pub capabilities: ModelCapabilities,
    pub cost: ModelCost,
    pub limit: ModelLimit,
    pub status: String,
    pub options: ExtraMaskedMap<JsonValue>,
    pub headers: ExtraMaskedMap<SecretString>,
    pub release_date: String,
    pub variants: Option<ExtraMaskedMap<JsonValue>>,
}

#[derive(Clone)]
pub struct ModelApi {
    pub id: String,
    pub url: String,
    pub npm: String,
}

#[derive(Clone)]
pub struct ModelCapabilities {
    pub temperature: bool,
    pub reasoning: bool,
    pub attachment: bool,
    pub toolcall: bool,
    pub input: ModelModalities,
    pub output: ModelModalities,
    pub interleaved: JsonValue,
}

#[derive(Clone, Copy)]
pub struct ModelModalities {
    pub text: bool,
    pub audio: bool,
    pub image: bool,
    pub video: bool,
    pub pdf: bool,
}

/// Model prices, as bits of the server's floating-point values.
#[derive(Clone, Copy)]
pub struct ModelCost {
    pub input: u64,
    pub output: u64,
    pub cache: ModelCacheCost,
    pub experimental_over_200k: Option<ModelCostOver200K>,
}

#[derive(Clone, Copy)]
pub struct ModelCacheCost {
    pub read: u64,
    pub write: u64,
}

#[derive(Clone, Copy)]
pub struct ModelCostOver200K {
    pub input: u64,
    pub output: u64,
    pub cache: ModelCacheCost,
}

/// Model token limits, as bits of the server's floating-point values.
#[derive(Clone, Copy)]
pub struct ModelLimit {
    pub context: u64,
    pub input: Option<u64>,
    pub output: u64,
}

#[derive(Clone)]
pub struct ProvidersResponse {
    pub providers: Vec<Provider>,
    pub default: ExtraMaskedMap<String>,
}

#[derive(Clone)]
pub struct TextSearchRequest {
    pub pattern: String,
}

#[derive(Clone)]
pub struct TextSearchResult {
    pub path: String,
    pub lines: String,
    pub line_number: usize,
    pub absolute_offset: usize,
    pub submatches: Vec<SubMatch>,
}

#[derive(Clone, Copy)]
pub struct SubMatch {
    pub start: usize,
    pub end: usize,
}

#[derive(Clone)]
pub struct FilesSearchRequest {
    pub query: String,
    /// "file" or "directory" (`type` on the wire)
    pub type_filter: Option<String>,
    pub directory: Option<String>,
    pub limit: Option<usize>,
}

#[derive(Clone)]
pub struct SymbolsSearchRequest {
    pub query: String,
}

#[derive(Clone)]
pub struct Symbol {
    pub name: String,
    /// Bits of the symbol kind.
    pub kind: u64,
    pub location: SymbolLocation,
}

#[derive(Clone)]
pub struct SymbolLocation {
    pub uri: String,
    pub range: Range,
}

#[derive(Clone)]
pub struct FileReadRequest {
    pub path: String,
}

#[derive(Clone)]
pub struct FileReadResponse {
    /// "text" or "binary" (`type` on the wire)
    pub content_type: String,
    pub content: String,
    pub diff: Option<String>,
    pub patch: Option<JsonValue>,
    pub encoding: Option<String>,
    pub mime_type: Option<String>,
}

#[derive(Clone)]
pub struct FileStatusRequest {
    pub path: Option<String>,
}

#[derive(Clone)]
pub struct File {
    pub path: String,
    pub added: i64,
    pub removed: i64,
    pub status: String,
}

#[derive(Clone)]
pub struct FileNode {
    pub name: String,
    pub path: String,
    pub absolute: String,
    /// "file" or "directory" (`type` on the wire)
    pub node_type: String,
    pub ignored: bool,
}

#[derive(Clone)]
pub struct Todo {
    pub content: String,
    pub status: String,
    pub priority: String,
}

#[derive(Clone)]
pub struct Pty {
    pub id: String,
    pub title: String,
    pub command: String,
    pub args: Vec<String>,
    pub cwd: String,
    pub status: String,
    pub pid: i64,
}

#[derive(Clone)]
pub struct LSPStatus {
    pub id: String,
    pub name: String,
    pub root: String,
    pub status: String,
}

#[derive(Clone)]
pub struct FormatterStatus {
    pub name: String,
    pub extensions: Vec<String>,
    pub enabled: bool,
}

#[derive(Clone)]
pub struct Command {
    pub name: String,
    pub description: Option<String>,
    pub agent: Option<String>,
    pub model: Option<String>,
    pub source: Option<String>,
    pub template: JsonValue,
    pub subtask: Option<bool>,
    pub hints: Vec<String>,
}

#[derive(Clone)]
pub struct Worktree {
    pub name: String,
    pub branch: String,
    pub directory: String,
}

#[derive(Clone)]
pub struct PtyCreateRequest {
    pub command: String,
    pub args: Vec<String>,
    pub cwd: Option<String>,
    pub title: Option<String>,
    pub env: ExtraMaskedMap<String>,
}

#[derive(Clone)]
pub struct PtyUpdateRequest {
    pub title: Option<String>,
    pub size: Option<PtySize>,
}

/// Terminal size, as bits of the server's floating-point values.
#[derive(Clone, Copy)]
pub struct PtySize {
    pub rows: u64,
    pub cols: u64,
}

#[derive(Clone)]
pub struct AppendPromptRequest {
    pub text: String,
}

#[derive(Clone)]
pub struct ExecuteCommandRequest {
    pub command: String,
}

#[derive(Clone)]
pub struct ShowToastRequest {
    pub title: Option<String>,
    pub message: String,
    /// "info", "success", "warning" or "error"
    pub variant: String,
    /// Bits of the duration.
    pub duration: Option<u64>,
}

#[derive(Clone)]
pub enum SessionStatus {
    Idle,
    /// Attempt number and next retry time, as bits of floating-point values.
    Retry { attempt: u64, message: String, next: u64 },
    Busy,
}

#[derive(Clone)]
pub struct QuestionRequest {
    pub id: String,
    pub session_id: String,
    pub questions: Vec<QuestionInfo>,
    pub tool: Option<PermissionToolContext>,
}

#[derive(Clone)]
pub struct QuestionInfo {
    pub question: String,
    pub header: String,
    pub options: Vec<QuestionOption>,
    pub multiple: Option<bool>,
    pub custom: Option<bool>,
}

#[derive(Clone)]
pub struct QuestionOption {
    pub label: String,
    pub description: String,
}

#[derive(Clone)]
pub struct AuthSetRequest {
    /// "api" (`type` on the wire)
    pub auth_type: String,
    pub key: SecretString,
}

/// A permission rule that controls access to specific operations.
pub struct PermissionRule {
    /// The permission type being controlled (e.g., "read", "write", "bash")
    pub permission: String,
    /// Pattern to match against (e.g., "*.rs", "/home/user/*")
    pub pattern: String,
    /// Action to take when the pattern matches
    pub action: PermissionAction,
}

impl Clone for PermissionRule {
    fn clone(&self) -> (r: Self)
        ensures
            r == *self,
    {
        PermissionRule {
            permission: self.permission.clone(),
            pattern: self.pattern.clone(),
            action: self.action,
        }
    }
}

/// Action to take for a permission request.
#[derive(Clone, Copy, PartialEq, Eq, Structural)]
pub enum PermissionAction {
    /// Automatically allow the operation
    Allow,
    /// Automatically deny the operation
    Deny,
    /// Ask the user for confirmation
    Ask,
}

/// Reply to a permission request.
#[derive(Clone, Copy, PartialEq, Eq, Structural)]
pub enum PermissionReply {
    Once,
    Always,
    Reject,
}

/// Tool context for a permission request.
#[derive(Clone)]
pub struct PermissionToolContext {
    pub message_id: String,
    pub call_id: String,
}

/// A pending permission request emitted by the server.
#[derive(Clone)]
pub struct PermissionRequest {
    pub id: String,
    pub session_id: String,
    pub permission: String,
    pub patterns: Vec<String>,
    pub metadata: ExtraMaskedMap<JsonValue>,
    pub always: Vec<String>,
    pub tool: Option<PermissionToolContext>,
}

/// Request body for replying to a permission request.
#[derive(Clone)]
pub struct PermissionReplyRequest {
    pub reply: PermissionReply,
}

/// Session timing information with millisecond-precision timestamps.
#[derive(Clone, Copy)]
pub struct SessionTime {
    /// When the session was created (milliseconds since Unix epoch)
    pub created: i64,
    /// When the session was last updated (milliseconds since Unix epoch)
    pub updated: i64,
    /// When the session started compacting (milliseconds since Unix epoch)
    pub compacting: Option<i64>,
    /// When the session was archived (milliseconds since Unix epoch)
    pub archived: Option<i64>,
}

/// Summary of changes made during a session.
#[derive(Clone)]
pub struct SessionSummary {
    /// Total lines added across all files
    pub additions: i64,
    /// Total lines deleted across all files
    pub deletions: i64,
    /// Number of files modified
    pub files: i64,
    /// Detailed diff information for each file
    pub diffs: Vec<FileDiff>,
}

/// Diff information for a single file.
pub struct FileDiff {
    /// Path to the file
    pub file: String,
    /// Content before changes
    pub before: String,
    /// Content after changes
    pub after: String,
    /// Number of lines added
    pub additions: i64,
    /// Number of lines deleted
    pub deletions: i64,
    /// Status of the file change (added, deleted, modified)
    pub status: Option<String>,
}

impl Clone for FileDiff {
    fn clone(&self) -> (r: Self)
        ensures
            r == *self,
    {
        FileDiff {
            file: self.file.clone(),
            before: self.before.clone(),
            after: self.after.clone(),
            additions: self.additions,
            deletions: self.deletions,
            status: clone_opt_string(&self.status),
        }
    }
}

/// Share settings for a session.
#[derive(Clone)]
pub struct SessionShare {
    /// URL where the session can be viewed publicly
    pub url: String,
}

/// Information about a reverted state in a session.
#[derive(Clone)]
pub struct SessionRevert {
    /// ID of the message that was reverted
    pub message_id: String,
    /// ID of the specific part that was reverted
    pub part_id: Option<String>,
    /// Snapshot of the session state at the revert point
    pub snapshot: Option<String>,
    /// Diff showing what was reverted
    pub diff: Option<String>,
}

#[derive(Clone)]
pub struct Session {
    pub id: String,
    pub slug: String,
    pub project_id: String,
    pub directory: String,
    pub parent_id: Option<String>,
    pub title: String,
    pub version: String,
    pub time: SessionTime,
    pub summary: Option<SessionSummary>,
    pub share: Option<SessionShare>,
    pub permission: Option<Vec<PermissionRule>>,
    pub revert: Option<SessionRevert>,
}

#[derive(Clone)]
pub struct SessionCreateRequest {
    pub parent_id: Option<String>,
    pub title: Option<String>,
    pub permission: Option<Vec<PermissionRule>>,
}

#[derive(Clone)]
pub struct GlobalSession {
    pub info: Session,
    pub project: Option<ProjectSummary>,
}

#[derive(Clone)]
pub struct SessionUpdateRequest {
    pub title: Option<String>,
    pub time: Option<SessionUpdateTime>,
}

#[derive(Clone, Copy)]
pub struct SessionUpdateTime {
    /// Bits of the archive time.
    pub archived: Option<u64>,
}

#[derive(Clone)]
pub struct SessionInitRequest {
    pub model_id: String,
    pub provider_id: String,
    pub message_id: String,
}

#[derive(Clone)]
pub struct SessionSummarizeRequest {
    pub provider_id: String,
    pub model_id: String,
    pub auto: bool,
}

#[derive(Clone)]
pub struct MessageWithParts {
    pub info: Message,
    pub parts: Vec<Part>,
}

#[derive(Clone)]
pub struct ModelSpec {
    pub provider_id: String,
    pub model_id: String,
}

#[derive(Clone)]
pub struct PromptRequest {
    pub model: Option<ModelSpec>,
    pub agent: Option<String>,
    pub system: Option<String>,
    pub parts: Vec<PartInput>,
    pub no_reply: Option<bool>,
}

#[derive(Clone)]
pub struct CommandRequest {
    pub command: String,
    pub args: Option<Vec<String>>,
}

#[derive(Clone)]
pub struct ShellRequest {
    pub command: String,
}

#[derive(Clone)]
pub struct RevertRequest {
    pub message_id: String,
}

#[derive(Clone, Copy, PartialEq, Eq, Structural)]
pub enum PermissionDecision {
    Allow,
    Reject,
}

#[derive(Clone)]
pub struct PermissionResponse {
    pub response: PermissionDecision,
    pub remember: Option<bool>,
}

/// Message timing information with millisecond-precision timestamps.
#[derive(Clone, Copy)]
pub struct MessageTime {
    /// When the message was created (milliseconds since Unix epoch)
    pub created: i64,
    /// When the message was completed (milliseconds since Unix epoch)
    pub completed: Option<i64>,
}

/// Token usage statistics for an AI response.
#[derive(Clone, Copy)]
pub struct TokenUsage {
    /// Total number of tokens used
    pub total: Option<i64>,
    /// Number of input tokens consumed
    pub input: i64,
    /// Number of output tokens generated
    pub output: i64,
    /// Number of reasoning tokens used (for reasoning-capable models)
    pub reasoning: i64,
    /// Cache usage statistics
    pub cache: CacheUsage,
}

/// Cache usage statistics for prompt caching.
#[derive(Clone, Copy)]
pub struct CacheUsage {
    /// Number of tokens read from cache
    pub read: i64,
    /// Number of tokens written to cache
    pub write: i64,
}

/// Error information for failed assistant messages.
#[derive(Clone)]
pub enum AssistantError {
    /// Authentication error with the AI provider
    ProviderAuthError { provider_id: String, message: String },
    /// An unknown or unexpected error occurred
    UnknownError { message: String },
    /// The AI response exceeded the maximum output length
    MessageOutputLengthError,
    /// The message generation was aborted by the user or system
    MessageAbortedError { message: String },
    /// Error when generating structured output
    StructuredOutputError { message: String, retries: i64 },
    /// Error when the context limit is exceeded
    ContextOverflowError { message: String, response_body: Option<SecretString> },
    /// An error occurred while communicating with the AI API
    APIError {
        message: String,
        status_code: Option<i64>,
        is_retryable: bool,
        response_headers: Option<ExtraMaskedMap<SecretString>>,
        response_body: Option<SecretString>,
        metadata: Option<ExtraMaskedMap<SecretString>>,
    },
}

/// A user-authored message in a conversation session.
#[derive(Clone)]
pub struct UserMessage {
    pub id: String,
    pub session_id: String,
    pub time: MessageTime,
    pub summary: Option<MessageSummary>,
    pub format: Option<OutputFormat>,
    pub agent: String,
    pub model: Option<ModelSpec>,
    pub system: Option<String>,
    pub tools: Option<ExtraMaskedMap<bool>>,
    pub variant: Option<String>,
}

/// Summary of a message and its effects.
#[derive(Clone)]
pub struct MessageSummary {
    pub title: String,
    pub body: String,
    pub diffs: Vec<FileDiff>,
}

/// An AI assistant-generated message in a conversation session.
#[derive(Clone)]
pub struct AssistantMessage {
    pub id: String,
    pub session_id: String,
    pub time: MessageTime,
    pub error: Option<AssistantError>,
    pub parent_id: String,
    pub model_id: String,
    pub provider_id: String,
    pub mode: String,
    pub agent: String,
    pub path: Option<MessagePath>,
    pub summary: Option<bool>,
    /// Bits of the estimated cost in USD.
    pub cost: u64,
    pub tokens: Option<TokenUsage>,
    pub structured: Option<JsonValue>,
    pub variant: Option<String>,
    pub finish: Option<String>,
}

/// Path context for where a message was generated.
#[derive(Clone)]
pub struct MessagePath {
    pub cwd: String,
    pub root: String,
}

#[derive(Clone)]
pub enum Message {
    User(UserMessage),
    Assistant(AssistantMessage),
}

impl Message {
    /// The message identifier.
    pub open spec fn spec_id(&self) -> Seq<char> {
        match self {
            Message::User(m) => m.id@,
            Message::Assistant(m) => m.id@,
        }
    }

    /// The identifier of the session the message belongs to.
    pub open spec fn spec_session_id(&self) -> Seq<char> {
        match self {
            Message::User(m) => m.session_id@,
            Message::Assistant(m) => m.session_id@,
        }
    }

    pub fn id(&self) -> (r: &str)
        ensures
            r@ == self.spec_id(),
    {
        match self {
            Message::User(msg) => msg.id.as_str(),
            Message::Assistant(msg) => msg.id.as_str(),
        }
    }

    pub fn session_id(&self) -> (r: &str)
        ensures
            r@ == self.spec_session_id(),
    {
        match self {
            Message::User(msg) => msg.session_id.as_str(),
            Message::Assistant(msg) => msg.session_id.as_str(),
        }
    }
}

/// Time span of a part, as bits of floating-point milliseconds.
#[derive(Clone, Copy)]
pub struct PartTime {
    pub start: u64,
    pub end: Option<u64>,
}

/// Creation time of a part, as bits of floating-point milliseconds.
#[derive(Clone, Copy)]
pub struct PartTimeCreated {
    pub created: u64,
}

#[derive(Clone)]
pub enum Part {
    Text {
        id: String,
        session_id: String,
        message_id: String,
        text: String,
        synthetic: Option<bool>,
        ignored: Option<bool>,
        time: Option<PartTime>,
        metadata: Option<ExtraMaskedMap<JsonValue>>,
    },
    Subtask {
        id: String,
        session_id: String,
        message_id: String,
        prompt: String,
        description: String,
        agent: String,
        model: AgentModelSpec,
        command: Option<String>,
    },
    Reasoning {
        id: String,
        session_id: String,
        message_id: String,
        text: String,
        metadata: Option<ExtraMaskedMap<JsonValue>>,
        time: PartTime,
    },
    File(FilePart),
    Tool {
        id: String,
        session_id: String,
        message_id: String,
        call_id: String,
        tool: String,
        state: ToolState,
        metadata: Option<ExtraMaskedMap<JsonValue>>,
    },
    StepStart { id: String, session_id: String, message_id: String, snapshot: Option<String> },
    StepFinish {
        id: String,
        session_id: String,
        message_id: String,
        reason: String,
        snapshot: Option<String>,
        /// Bits of the step's cost.
        cost: u64,
        tokens: Option<TokenUsage>,
    },
    Snapshot { id: String, session_id: String, message_id: String, snapshot: String },
    Patch { id: String, session_id: String, message_id: String, hash: String, files: Vec<String> },
    Agent {
        id: String,
        session_id: String,
        message_id: String,
        name: String,
        source: Option<PartSourceValue>,
    },
    Retry {
        id: String,
        session_id: String,
        message_id: String,
        /// Bits of the attempt number.
        attempt: u64,
        error: AssistantError,
        time: PartTimeCreated,
    },
    Compaction { id: String, session_id: String, message_id: String, auto: bool },
    /// Other part types, which are not rendered.
    Unknown,
}

#[derive(Clone)]
pub struct FilePart {
    pub id: String,
    pub session_id: String,
    pub message_id: String,
    pub mime: String,
    pub filename: Option<String>,
    pub url: String,
    pub source: Option<FilePartSource>,
}

#[derive(Clone)]
pub struct PartSourceValue {
    pub value: String,
    pub start: i64,
    pub end: i64,
}

/// Tool execution state (pending / running / completed / error).
#[derive(Clone)]
pub enum ToolState {
    Pending { input: ExtraMaskedMap<JsonValue>, raw: String },
    Running {
        input: ExtraMaskedMap<JsonValue>,
        title: String,
        metadata: ExtraMaskedMap<JsonValue>,
        time: ToolStateTime,
    },
    Completed {
        input: ExtraMaskedMap<JsonValue>,
        output: String,
        title: String,
        metadata: ExtraMaskedMap<JsonValue>,
        time: ToolStateTime,
        attachments: Vec<FilePart>,
    },
    Error {
        input: ExtraMaskedMap<JsonValue>,
        error: String,
        metadata: ExtraMaskedMap<JsonValue>,
        time: ToolStateTime,
    },
}

/// Tool timing, as bits of floating-point milliseconds.
#[derive(Clone, Copy)]
pub struct ToolStateTime {
    pub start: Option<u64>,
    pub end: Option<u64>,
    pub compacted: Option<u64>,
}

#[derive(Clone)]
pub enum PartInput {
    Text {
        id: Option<String>,
        text: String,
        synthetic: Option<bool>,
        ignored: Option<bool>,
        time: Option<PartTime>,
        metadata: Option<ExtraMaskedMap<JsonValue>>,
    },
    File {
        id: Option<String>,
        mime: String,
        filename: Option<String>,
        url: String,
        source: Option<FilePartSource>,
    },
    Agent { id: Option<String>, name: String, source: Option<PartSourceValue> },
    Subtask {
        id: Option<String>,
        prompt: String,
        description: String,
        agent: String,
        model: Option<AgentModelSpec>,
        command: Option<String>,
    },
}

#[derive(Clone)]
pub enum FilePartSource {
    File { text: FilePartSourceText, path: String },
    Symbol { text: FilePartSourceText, path: String, range: Range, name: String, kind: i64 },
    Resource { text: FilePartSourceText, client_name: String, uri: String },
}

#[derive(Clone)]
pub struct FilePartSourceText {
    pub value: String,
    pub start: i64,
    pub end: i64,
}

#[derive(Clone, Copy)]
pub struct Range {
    pub start: Position,
    pub end: Position,
}

/// A text position, as bits of floating-point line and character numbers.
#[derive(Clone, Copy)]
pub struct Position {
    pub line: u64,
    pub character: u64,
}

#[derive(Clone)]
pub struct McpResource {
    pub name: String,
    pub uri: String,
    pub description: Option<String>,
    pub mime_type: Option<String>,
    pub client: String,
}

#[derive(Clone)]
pub enum MCPStatus {
    Connected,
    Disabled,
    Failed { error: String },
    NeedsAuth,
    NeedsClientRegistration { error: String },
}

#[derive(Clone)]
pub struct ToolListItem {
    pub id: String,
    pub description: String,
    pub parameters: JsonValue,
}

#[derive(Clone)]
pub struct McpAddRequest {
    pub name: String,
    pub config: McpConfig,
}

#[derive(Clone)]
pub enum McpConfig {
    Local(McpLocalConfig),
    Remote(McpRemoteConfig),
}

#[derive(Clone)]
pub struct McpLocalConfig {
    pub command: Vec<String>,
    pub environment: ExtraMaskedMap<String>,
    pub enabled: Option<bool>,
    /// Bits of the timeout.
    pub timeout: Option<u64>,
}

#[derive(Clone)]
pub struct McpRemoteConfig {
    pub url: String,
    pub enabled: Option<bool>,
    pub headers: ExtraMaskedMap<SecretString>,
    pub oauth: Option<JsonValue>,
    /// Bits of the timeout.
    pub timeout: Option<u64>,
}

/// Server-sent events from the OpenCode server.
#[derive(Clone)]
pub enum Event {
    SessionCreated(Session),
    SessionUpdated(Session),
    SessionDeleted(Session),
    SessionStatus { session_id: String, status: SessionStatus },
    SessionIdle { session_id: String },
    SessionCompacted { session_id: String },
    SessionDiff { session_id: String, diff: Vec<FileDiff> },
    MessageUpdated(Message),
    MessageRemoved { session_id: String, message_id: String },
    PartUpdated { part: Part, delta: Option<String> },
    PartDelta {
        session_id: String,
        message_id: String,
        part_id: String,
        field: String,
        delta: String,
    },
    PartRemoved { session_id: String, message_id: String, part_id: String },
    SessionError { session_id: String, error: AssistantError },
    PermissionAsked(PermissionRequest),
    PermissionReplied { session_id: String, request_id: String, reply: PermissionReply },
    QuestionAsked(QuestionRequest),
    QuestionReplied { session_id: String, request_id: String, answers: Vec<Vec<String>> },
    QuestionRejected { session_id: String, request_id: String },
    TodoUpdated { session_id: String, todos: Vec<Todo> },
    TuiPromptAppend { text: String },
    TuiCommandExecute { command: String },
    /// A toast; its duration as bits of a floating-point value.
    TuiToastShow { title: Option<String>, message: String, variant: String, duration: Option<u64> },
    TuiSessionSelect { session_id: String },
    PtyCreated(Pty),
    PtyUpdated(Pty),
    PtyExited { id: String, exit_code: i64 },
    PtyDeleted { id: String },
    ProjectUpdated(Project),
    VcsBranchUpdated { branch: String },
    FileEdited { file: String },
    FileWatcherUpdated { file: String, event: String },
    LspUpdated,
    LspDiagnostics { server_id: String, path: String },
    WorktreeReady { name: String, branch: String },
    WorktreeFailed { message: String },
    McpToolsChanged { server: String },
    McpBrowserOpenFailed { mcp_name: String, url: String },
    CommandExecuted { name: String, session_id: String, arguments: String, message_id: String },
    InstallationUpdated { version: String },
    InstallationUpdateAvailable { version: String },
    ServerConnected,
    GlobalDisposed,
    ServerInstanceDisposed { directory: String },
    Error(String),
    Unknown(String),
}

} // verus!
