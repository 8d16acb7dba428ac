//! The agent's runtime state: its persona, mental state, working memory and
//! configuration, together with the small mutations the tick loop and the
//! request path apply to it.

use vstd::prelude::*;
use crate::state::{MentalState, UNIT};

verus! {

/// The agent's identity.
pub struct Persona {
    pub name: String,
    pub core_directive: String,
    pub role: String,
}

impl Persona {
    /// The identity an agent wakes up with.
    pub fn initial() -> (p: Persona)
        ensures
            p.name@ == "Azera"@,
            p.core_directive@ == "Serve the user with wisdom, curiosity, and care"@,
            p.role@ == "The Night Entity"@,
    {
        Persona {
            name: "Azera".to_owned(),
            core_directive: "Serve the user with wisdom, curiosity, and care".to_owned(),
            role: "The Night Entity".to_owned(),
        }
    }
}

impl Default for Persona {
    /// The identity an agent wakes up with.
    fn default() -> (p: Persona)
        ensures
            p.name@ == "Azera"@,
            p.core_directive@ == "Serve the user with wisdom, curiosity, and care"@,
            p.role@ == "The Night Entity"@,
    {
        Persona::initial()
    }
}

/// Short-term working memory: the recent exchange history and at most one
/// pending input waiting for the cognitive step.
pub struct WorkingMemory {
    pub short_term_history: Vec<String>,
    pub pending_input: Option<String>,
    pub context_window: usize,
}

impl WorkingMemory {
    /// Empty working memory with the default context window.
    pub fn initial() -> (w: WorkingMemory)
        ensures
            w.short_term_history@.len() == 0,
            w.pending_input is None,
            w.context_window == 10,
    {
        WorkingMemory { short_term_history: Vec::new(), pending_input: None, context_window: 10 }
    }
}

impl Default for WorkingMemory {
    /// Empty working memory with the default context window.
    fn default() -> (w: WorkingMemory)
        ensures
            w.short_term_history@.len() == 0,
            w.pending_input is None,
            w.context_window == 10,
    {
        WorkingMemory::initial()
    }
}

/// The agent's configuration: the completion model, the enabled tools, and
/// the scheduler thresholds.
pub struct AgentConfig {
    pub model: String,
    pub tools_enabled: Vec<String>,
    pub rag_enabled: bool,
    pub dream_threshold_seconds: u64,
    pub reflection_hour: u32,
}

impl AgentConfig {
    /// The defaults: dreaming after five idle minutes, reflection at the
    /// last hour of the day.
    pub fn initial() -> (c: AgentConfig)
        ensures
            c.model@ == "llama3.2"@,
            c.tools_enabled@.len() == 2,
            c.tools_enabled@[0]@ == "web_scraper"@,
            c.tools_enabled@[1]@ == "code_executor"@,
            c.rag_enabled,
            c.dream_threshold_seconds == 300,
            c.reflection_hour == 23,
    {
        let mut tools: Vec<String> = Vec::new();
        tools.push("web_scraper".to_owned());
        tools.push("code_executor".to_owned());
        AgentConfig {
            model: "llama3.2".to_owned(),
            tools_enabled: tools,
            rag_enabled: true,
            dream_threshold_seconds: 300,
            reflection_hour: 23,
        }
    }
}

impl Default for AgentConfig {
    /// The documented configuration defaults.
    fn default() -> (c: AgentConfig)
        ensures
            c.model@ == "llama3.2"@,
            c.rag_enabled,
            c.dream_threshold_seconds == 300,
            c.reflection_hour == 23,
    {
        AgentConfig::initial()
    }
}

/// The whole runtime state of one agent.
pub struct AgentState {
    pub entity_id: u64,
    pub persona: Persona,
    pub mental_state: MentalState,
    pub working_memory: WorkingMemory,
    pub agent_config: AgentConfig,
    pub metadata: Vec<(String, String)>,
}

impl AgentState {
    /// A fresh agent at instant `now`.
    pub fn new(now: i64) -> (s: AgentState)
        ensures
            s.entity_id == 1,
            s.mental_state.wf(),
            !s.mental_state.is_dreaming,
            s.mental_state.last_active == now,
            s.mental_state.last_dream is None,
            s.working_memory.pending_input is None,
            s.metadata@.len() == 0,
    {
        AgentState {
            entity_id: 1,
            persona: Persona::initial(),
            mental_state: MentalState::initial(now),
            working_memory: WorkingMemory::initial(),
            agent_config: AgentConfig::initial(),
            metadata: Vec::new(),
        }
    }

    /// Marks the agent initialized: stamps the activity clock and records
    /// the marker in its metadata.
    pub fn init_agent(&mut self, now: i64)
        ensures
            final(self).entity_id == 1,
            final(self).mental_state.last_active == now,
            final(self).metadata@.len() == old(self).metadata@.len() + 1,
            final(self).metadata@.last().0@ == "initialized"@,
            final(self).metadata@.last().1@ == "true"@,
            final(self).working_memory == old(self).working_memory,
            final(self).agent_config == old(self).agent_config,
    {
        self.entity_id = 1;
        self.mental_state.last_active = now;
        self.metadata.push(("initialized".to_owned(), "true".to_owned()));
    }

    /// Overwrites mood and energy, each clamped to the canonical range.
    pub fn update_mental_state(&mut self, mood: u32, energy: u32)
        ensures
            final(self).mental_state.mood == (if mood <= UNIT {
                mood
            } else {
                UNIT
            }),
            final(self).mental_state.energy == (if energy <= UNIT {
                energy
            } else {
                UNIT
            }),
            final(self).mental_state.focus_level == old(self).mental_state.focus_level,
            final(self).mental_state.is_dreaming == old(self).mental_state.is_dreaming,
            final(self).mental_state.last_active == old(self).mental_state.last_active,
            final(self).mental_state.last_dream == old(self).mental_state.last_dream,
            final(self).working_memory == old(self).working_memory,
    {
        self.mental_state.mood = if mood <= UNIT {
            mood
        } else {
            UNIT
        };
        self.mental_state.energy = if energy <= UNIT {
            energy
        } else {
            UNIT
        };
    }

    /// Queues an input for the cognitive step; a later signal replaces an
    /// earlier one still waiting.
    pub fn set_pending_input(&mut self, input: String)
        ensures
            final(self).working_memory.pending_input == Some(input),
            final(self).mental_state == old(self).mental_state,
    {
        self.working_memory.pending_input = Some(input);
    }

    /// Takes the pending input, leaving none behind.
    pub fn get_pending_input(&mut self) -> (r: Option<String>)
        ensures
            r == old(self).working_memory.pending_input,
            final(self).working_memory.pending_input is None,
            final(self).mental_state == old(self).mental_state,
    {
        let r = self.working_memory.pending_input.take();
        r
    }
}

} // verus!
