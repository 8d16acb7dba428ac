//! The plain data shapes of the backend's API: chat, tag and group requests,
//! speech synthesis, the inference server's wire types, and model
//! management. Serialization lives with the callers; here the types carry
//! their fields and the documented defaults.

use vstd::prelude::*;

verus! {

/// A tag that organizes chats and personas.
pub struct Tag {
    pub id: String,
    pub name: String,
    pub color: String,
}

/// A group of conversations.
pub struct ChatGroup {
    pub id: String,
    pub name: String,
    pub color: String,
    pub collapsed: bool,
    pub order: i64,
}

/// One chat message as stored with a branch.
pub struct ChatMessage {
    pub id: String,
    pub role: String,
    pub content: String,
    pub timestamp: Option<i64>,
    pub user_persona: Option<String>,
    pub ai_persona: Option<String>,
    pub model: Option<String>,
    pub mood: Option<String>,
}

/// An inbound chat request.
pub struct ChatRequest {
    pub chat_id: String,
    pub branch_id: String,
    pub message: String,
    pub model: String,
    pub user_persona_id: Option<String>,
    pub ai_persona_id: Option<String>,
}

pub struct CreateChatRequest {
    pub title: Option<String>,
    pub group_id: Option<String>,
}

pub struct UpdateChatRequest {
    pub title: Option<String>,
    pub group_id: Option<String>,
    pub tags: Option<Vec<String>>,
    pub current_branch_id: Option<String>,
}

pub struct CreateGroupRequest {
    pub name: String,
    pub color: String,
}

pub struct UpdateGroupRequest {
    pub name: Option<String>,
    pub color: Option<String>,
    pub collapsed: Option<bool>,
    pub order: Option<i64>,
}

pub struct CreateTagRequest {
    pub name: String,
    pub color: String,
}

pub struct UpdateTagRequest {
    pub name: Option<String>,
    pub color: Option<String>,
}

pub struct UpdateMoodRequest {
    pub mood: String,
}

/// A hybrid-search request over memories.
pub struct SearchRequest {
    pub query: String,
    pub limit: usize,
    pub memory_type: Option<String>,
}

/// A speech-synthesis request.
pub struct TtsSynthesisRequest {
    pub text: String,
    pub model: String,
    pub voice_sample_url: Option<String>,
    pub voice_description: Option<String>,
    pub persona_id: Option<String>,
}

/// The synthesized audio, already encoded for transport.
pub struct TtsSynthesisResponse {
    pub audio_base64: String,
    pub format: String,
    pub duration_ms: u64,
}

/// A list of items with its total.
pub struct ListResponse<T> {
    pub items: Vec<T>,
    pub total: usize,
}

/// One message of an inference-server conversation.
pub struct OllamaMessage {
    pub role: String,
    pub content: String,
}

/// A whole inference request.
pub struct OllamaRequest {
    pub model: String,
    pub messages: Vec<OllamaMessage>,
    pub stream: bool,
}

/// One chunk of a streamed inference response.
pub struct OllamaStreamChunk {
    pub model: String,
    pub created_at: String,
    pub message: Option<OllamaMessage>,
    pub done: bool,
}

/// A complete inference response.
pub struct OllamaResponse {
    pub model: String,
    pub message: OllamaMessage,
    pub done: bool,
}

/// A model installed on the inference server.
pub struct InstalledModel {
    pub name: String,
    pub modified_at: Option<String>,
    pub size: Option<u64>,
    pub digest: Option<String>,
}

/// A request to pull a model onto the inference server.
pub struct PullModelRequest {
    pub model: String,
}

/// The outcome of a model operation.
pub struct ModelResponse {
    pub status: String,
    pub model: Option<String>,
    pub message: Option<String>,
}

/// Progress of a model pull.
pub struct OllamaPullProgress {
    pub status: String,
    pub digest: Option<String>,
    pub total: Option<u64>,
    pub completed: Option<u64>,
}

pub struct ImageUploadRequest {
    pub image_data: String,
    pub filename: Option<String>,
}

pub struct ImageUploadResponse {
    pub id: String,
    pub url: String,
}

/// An available image-generation model.
pub struct ImageModel {
    pub name: String,
    pub display_name: String,
    pub description: Option<String>,
    pub installed: bool,
}

/// Cross-chat memory is on unless a persona switches it off.
pub fn default_true() -> (r: bool)
    ensures
        r,
{
    true
}

/// The model used when a request names none.
pub fn default_model() -> (r: String)
    ensures
        r@ == "llama3.2"@,
{
    "llama3.2".to_owned()
}

/// The color given to groups and tags created without one.
pub fn default_color() -> (r: String)
    ensures
        r@ == "#6b7280"@,
{
    "#6b7280".to_owned()
}

/// The speech model used when a request names none.
pub fn default_tts_model() -> (r: String)
    ensures
        r@ == "qwen3-tts"@,
{
    "qwen3-tts".to_owned()
}

/// How many results a search returns when the request does not say.
pub fn default_limit() -> (r: usize)
    ensures
        r == 5,
{
    5
}

} // verus!
