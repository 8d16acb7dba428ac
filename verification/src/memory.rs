//! The memory writer's data shapes: memory records, the payload laid into
//! the vector store, and the reduced-field mirror document for the lexical
//! index. Every vector-store write has a lexical mirror under the same id,
//! so the two stores can never disagree about which record a hit names.

use vstd::prelude::*;

verus! {


/// The collection all memories live in.
pub fn memory_collection() -> (r: String)
    ensures
        r@ == "azera_memory"@,
{
    "azera_memory".to_owned()
}

/// The kinds of retrievable memory.
#[derive(Clone, Copy, Debug, PartialEq, Eq, Structural)]
pub enum MemoryType {
    Conversation,
    Dream,
    Reflection,
    Fact,
    Emotion,
}

/// The name a memory type carries in payloads and filters.
pub open spec fn spec_memory_type_name(t: MemoryType) -> Seq<char> {
    match t {
        MemoryType::Conversation => "conversation"@,
        MemoryType::Dream => "dream"@,
        MemoryType::Reflection => "reflection"@,
        MemoryType::Fact => "fact"@,
        MemoryType::Emotion => "emotion"@,
    }
}

impl MemoryType {
    /// The type's payload name.
    pub fn name(&self) -> (r: String)
        ensures
            r@ == spec_memory_type_name(*self),
    {
        match self {
            MemoryType::Conversation => "conversation".to_owned(),
            MemoryType::Dream => "dream".to_owned(),
            MemoryType::Reflection => "reflection".to_owned(),
            MemoryType::Fact => "fact".to_owned(),
            MemoryType::Emotion => "emotion".to_owned(),
        }
    }

    /// The type a payload name stands for; an unknown name reads as plain
    /// conversation.
    pub fn parse(s: &str) -> (r: MemoryType)
        ensures
            r == spec_parse_memory_type(s@),
    {
        let v = s.to_owned();
        if v == "dream".to_owned() {
            MemoryType::Dream
        } else if v == "reflection".to_owned() {
            MemoryType::Reflection
        } else if v == "fact".to_owned() {
            MemoryType::Fact
        } else if v == "emotion".to_owned() {
            MemoryType::Emotion
        } else {
            MemoryType::Conversation
        }
    }
}

pub open spec fn spec_parse_memory_type(s: Seq<char>) -> MemoryType {
    if s == "dream"@ {
        MemoryType::Dream
    } else if s == "reflection"@ {
        MemoryType::Reflection
    } else if s == "fact"@ {
        MemoryType::Fact
    } else if s == "emotion"@ {
        MemoryType::Emotion
    } else {
        MemoryType::Conversation
    }
}

/// One unit of retrievable content. `timestamp` is UTC seconds, set at write
/// time; records are immutable once written.
pub struct MemoryRecord {
    pub id: String,
    pub content: String,
    pub memory_type: MemoryType,
    pub owner_persona_id: Option<String>,
    pub chat_id: Option<String>,
    pub branch_id: Option<String>,
    pub timestamp: i64,
}

/// One field of a vector-store payload. Where a key is bound twice, the last
/// binding wins, as in the store's own document model.
pub struct PayloadField {
    pub key: String,
    pub value: String,
}

/// A prepared vector-store write.
pub struct VectorWrite {
    pub collection: String,
    pub id: String,
    pub payload: Vec<PayloadField>,
}

/// The reduced-field mirror document for the lexical index.
pub struct LexicalDoc {
    pub id: String,
    pub memory_type: String,
    pub title: String,
    pub content: String,
    pub date: String,
    pub persona_id: Option<String>,
    pub tags: Vec<String>,
}

/// The latest instant the timestamp formatters accept (the end of year 9999).
pub const MAX_FORMATTED_SECS: i64 = 253_402_300_799;

/// What chrono's RFC 3339 formatter prints for a UTC instant; a function of
/// the instant alone.
pub uninterp spec fn rfc3339_utc_of(secs: i64) -> Seq<char>;

/// Relies on chrono's `DateTime::from_timestamp` and `to_rfc3339`: the
/// printed form of a UTC instant, determined by the instant alone.
#[verifier::external_body]
pub fn rfc3339_utc(secs: i64) -> (r: String)
    requires
        0 <= secs <= MAX_FORMATTED_SECS,
    ensures
        r@ == rfc3339_utc_of(secs),
{
    match chrono::DateTime::<chrono::Utc>::from_timestamp(secs, 0) {
        Some(dt) => dt.to_rfc3339(),
        None => String::new(),
    }
}

/// What chrono prints for a UTC instant's calendar date, year-month-day; a
/// function of the instant alone.
pub uninterp spec fn utc_date_of(secs: i64) -> Seq<char>;

/// Relies on chrono's `DateTime::from_timestamp` and `format`: the instant's
/// UTC calendar date, determined by the instant alone.
#[verifier::external_body]
pub fn utc_date(secs: i64) -> (r: String)
    requires
        0 <= secs <= MAX_FORMATTED_SECS,
    ensures
        r@ == utc_date_of(secs),
{
    match chrono::DateTime::<chrono::Utc>::from_timestamp(secs, 0) {
        Some(dt) => dt.format("%Y-%m-%d").to_string(),
        None => String::new(),
    }
}

/// Builds the payload stored beside a memory's vector: the caller's metadata
/// followed by the record's content, its type name, and a timestamp printed
/// at write time — so time filters order records by when they were written,
/// not by what a caller claims. The three reserved fields stand last and so
/// win over any metadata field of the same name.
pub fn build_memory_payload(
    metadata: Vec<PayloadField>,
    content: &str,
    memory_type: MemoryType,
    now: i64,
) -> (r: Vec<PayloadField>)
    requires
        0 <= now <= MAX_FORMATTED_SECS,
    ensures
        r@.len() == metadata@.len() + 3,
        forall|i: int|
            0 <= i < metadata@.len() ==> (#[trigger] r@[i]).key@ == metadata@[i].key@
                && r@[i].value@ == metadata@[i].value@,
        r@[metadata@.len() as int].key@ == "content"@,
        r@[metadata@.len() as int].value@ == content@,
        r@[metadata@.len() as int + 1].key@ == "type"@,
        r@[metadata@.len() as int + 1].value@ == spec_memory_type_name(memory_type),
        r@[metadata@.len() as int + 2].key@ == "timestamp"@,
        r@[metadata@.len() as int + 2].value@ == rfc3339_utc_of(now),
{
    let mut r = metadata;
    r.push(PayloadField { key: "content".to_owned(), value: content.to_owned() });
    r.push(PayloadField { key: "type".to_owned(), value: memory_type.name() });
    r.push(PayloadField { key: "timestamp".to_owned(), value: rfc3339_utc(now) });
    r
}

/// Prepares both halves of a memory write: the vector-store payload and the
/// lexical mirror document. The two carry the same id — the invariant that
/// lets either store's hits name the same record — and the mirror carries
/// the filterable fields: type, date derived from the same timestamp, and
/// the owning persona.
pub fn prepare_memory_write(record: &MemoryRecord, metadata: Vec<PayloadField>) -> (r: (
    VectorWrite,
    LexicalDoc,
))
    requires
        0 <= record.timestamp <= MAX_FORMATTED_SECS,
    ensures
        r.0.collection@ == "azera_memory"@,
        r.0.id@ == record.id@,
        r.1.id@ == record.id@,
        r.0.payload@.len() == metadata@.len() + 3,
        r.0.payload@[metadata@.len() as int].key@ == "content"@,
        r.0.payload@[metadata@.len() as int].value@ == record.content@,
        r.0.payload@[metadata@.len() as int + 1].key@ == "type"@,
        r.0.payload@[metadata@.len() as int + 1].value@ == spec_memory_type_name(record.memory_type),
        r.0.payload@[metadata@.len() as int + 2].key@ == "timestamp"@,
        r.0.payload@[metadata@.len() as int + 2].value@ == rfc3339_utc_of(record.timestamp),
        forall|i: int|
            0 <= i < metadata@.len() ==> (#[trigger] r.0.payload@[i]).key@ == metadata@[i].key@
                && r.0.payload@[i].value@ == metadata@[i].value@,
        r.1.memory_type@ == spec_memory_type_name(record.memory_type),
        r.1.title@ == Seq::<char>::empty(),
        r.1.content@ == record.content@,
        r.1.date@ == utc_date_of(record.timestamp),
        record.owner_persona_id matches Some(p) ==> (r.1.persona_id matches Some(q) && q@ == p@),
        record.owner_persona_id is None ==> r.1.persona_id is None,
        r.1.tags@.len() == 0,
{
    let payload = build_memory_payload(
        metadata,
        record.content.as_str(),
        record.memory_type,
        record.timestamp,
    );
    let write = VectorWrite {
        collection: memory_collection(),
        id: record.id.clone(),
        payload,
    };
    let persona_id = match &record.owner_persona_id {
        Some(p) => Some(p.clone()),
        None => None,
    };
    let doc = LexicalDoc {
        id: record.id.clone(),
        memory_type: record.memory_type.name(),
        title: String::new(),
        content: record.content.clone(),
        date: utc_date(record.timestamp),
        persona_id,
        tags: Vec::new(),
    };
    (write, doc)
}

} // verus!
