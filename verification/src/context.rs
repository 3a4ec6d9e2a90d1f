//! What the context monitor counts of an agent's log: tool-use density, and the
//! token usage to compare against the context threshold.
use vstd::prelude::*;

verus! {

/// What the context monitor reads of one log message.
#[derive(Debug, Clone, Copy, PartialEq, Eq, Structural)]
pub enum ObservedEntry {
    /// A tool use.
    ToolUse,
    /// An assistant, user or system message.
    Conversation,
    /// A token usage report.
    TokenUsage { total_tokens: u32, model_context_window: u32 },
    /// Anything else, including messages that carry no conversation entry.
    Other,
}

/// Counts tool-use messages among the conversation messages of an agent's log.
pub struct ToolDensityTracker {
    tool_messages: u32,
    total_messages: u32,
}

impl ToolDensityTracker {
    /// Tool uses counted so far.
    pub closed spec fn tools(&self) -> nat {
        self.tool_messages as nat
    }

    /// Messages counted so far (tool uses and conversation messages).
    pub closed spec fn total(&self) -> nat {
        self.total_messages as nat
    }

    /// Every tool use counted is also a message counted.
    pub open spec fn wf(&self) -> bool {
        self.tools() <= self.total()
    }

    /// A tracker that has counted nothing.
    pub fn new() -> (r: Self)
        ensures
            r.wf(),
            r.tools() == 0,
            r.total() == 0,
    {
        ToolDensityTracker { tool_messages: 0, total_messages: 0 }
    }

    /// Counts one log message: a tool use counts towards both counts, a
    /// conversation message towards the total only, anything else not at all.
    pub fn observe(&mut self, entry: &ObservedEntry)
        requires
            old(self).wf(),
            old(self).total() < u32::MAX,
        ensures
            final(self).wf(),
            final(self).tools() == old(self).tools() + if *entry == ObservedEntry::ToolUse {
                1nat
            } else {
                0nat
            },
            final(self).total() == old(self).total() + if *entry == ObservedEntry::ToolUse || *entry
                == ObservedEntry::Conversation {
                1nat
            } else {
                0nat
            },
    {
        match entry {
            ObservedEntry::ToolUse => {
                self.tool_messages = self.tool_messages + 1;
                self.total_messages = self.total_messages + 1;
            },
            ObservedEntry::Conversation => {
                self.total_messages = self.total_messages + 1;
            },
            _ => {},
        }
    }

    /// Tool uses counted so far.
    pub fn tool_messages(&self) -> (r: u32)
        ensures
            r == self.tools(),
    {
        self.tool_messages
    }

    /// Messages counted so far.
    pub fn total_messages(&self) -> (r: u32)
        ensures
            r == self.total(),
    {
        self.total_messages
    }
}

/// Watches an agent's context use (the watching itself runs in the service).
pub struct ContextMonitor;

/// The token usage a log entry reports, when it is one with a non-zero context window.
pub open spec fn measurable(entry: ObservedEntry) -> Option<(u32, u32)> {
    match entry {
        ObservedEntry::TokenUsage { total_tokens, model_context_window } => if model_context_window == 0 {
            None
        } else {
            Some((total_tokens, model_context_window))
        },
        _ => None,
    }
}

impl ContextMonitor {
    /// The tokens used and the context window of a token usage entry, to be
    /// compared with the threshold; nothing for other entries or a zero window.
    pub fn measurable_usage(entry: &ObservedEntry) -> (r: Option<(u32, u32)>)
        ensures
            r == measurable(*entry),
    {
        match entry {
            ObservedEntry::TokenUsage { total_tokens, model_context_window } => {
                if *model_context_window == 0 {
                    None
                } else {
                    Some((*total_tokens, *model_context_window))
                }
            },
            _ => None,
        }
    }
}

} // verus!
