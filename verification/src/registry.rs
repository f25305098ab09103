//! The shader registry: compiled pipeline pairs by shader id, with a fallback
//! for every id that has none.
//!
//! Shaders are compiled in the background. A compilation is started with a
//! ticket and finished with its outcome; the registry takes the outcome
//! unless the compilation failed or the shader was removed in between.

use vstd::prelude::*;
use std::collections::HashMap;

verus! {

broadcast use vstd::std_specs::hash::group_hash_axioms;

/// Name of a shader, chosen by the scene.
#[derive(Clone, Copy, Debug, PartialEq, Eq, Structural, Hash)]
pub struct ShaderId(pub u64);

/// Severity of a compilation message.
#[derive(Clone, Copy, Debug, PartialEq, Eq, Structural)]
pub enum CompilationMessageType {
    Error,
    Warning,
    Info,
}

/// One diagnostic of a shader compilation.
#[derive(Clone, Debug)]
pub struct CompilationMessage {
    pub message: String,
    pub message_type: CompilationMessageType,
}

/// Handed out when a compilation starts, and handed back with its outcome.
#[derive(Clone, Copy, Debug, PartialEq, Eq, Structural)]
pub struct CompileTicket {
    pub shader_id: ShaderId,
    /// Number of removals the registry had seen when the compilation started.
    pub epoch: u64,
}

/// What became of a finished compilation.
#[derive(Clone, Copy, Debug, PartialEq, Eq, Structural)]
pub enum CompileOutcome {
    /// The new pipelines are published.
    Installed,
    /// The compilation reported an error; the shader is not installed.
    Rejected,
    /// The shader was removed while it compiled; the result is dropped.
    Discarded,
}

/// What the registry holds.
pub struct RegistryModel<H> {
    /// The published pipelines, by shader id.
    pub shaders: Map<u64, H>,
    /// For every shader id that was ever removed, the epoch of its last removal.
    pub removed_at: Map<u64, u64>,
    /// Number of removals so far.
    pub epoch: u64,
}

/// The compiled pipeline pairs, by shader id. `H` is whatever the host keeps
/// for a compiled pair.
pub struct ShaderRegistry<H> {
    shaders: HashMap<u64, H>,
    removed_at: HashMap<u64, u64>,
    epoch: u64,
}

/// Some message reports an error.
pub open spec fn has_error(messages: Seq<CompilationMessage>) -> bool {
    exists|i: int| 0 <= i < messages.len() && (#[trigger] messages[i]).message_type is Error
}

/// Whether a compilation failed: whether any of its messages is an error.
pub fn any_error(messages: &Vec<CompilationMessage>) -> (failed: bool)
    ensures
        failed == has_error(messages@),
{
    let mut i: usize = 0;
    while i < messages.len()
        invariant
            i <= messages@.len(),
            forall|k: int| 0 <= k < i ==> !((#[trigger] messages@[k]).message_type is Error),
        decreases messages@.len() - i,
    {
        match messages[i].message_type {
            CompilationMessageType::Error => {
                return true;
            },
            _ => {},
        }
        i = i + 1;
    }
    false
}

impl<H> RegistryModel<H> {
    /// Every recorded removal happened before the current epoch.
    pub open spec fn wf(self) -> bool {
        forall|id: u64| self.removed_at.contains_key(id) ==> #[trigger] self.removed_at[id] < self.epoch
    }

    /// The shader of `ticket` was removed after the ticket was handed out.
    pub open spec fn cancelled(self, ticket: CompileTicket) -> bool {
        self.removed_at.contains_key(ticket.shader_id.0) && self.removed_at[ticket.shader_id.0]
            >= ticket.epoch
    }

    /// What finishing the compilation of `ticket` with `messages` leads to.
    pub open spec fn outcome(self, ticket: CompileTicket, messages: Seq<CompilationMessage>) -> CompileOutcome {
        if has_error(messages) {
            CompileOutcome::Rejected
        } else if self.cancelled(ticket) {
            CompileOutcome::Discarded
        } else {
            CompileOutcome::Installed
        }
    }
}

impl<H> View for ShaderRegistry<H> {
    type V = RegistryModel<H>;

    closed spec fn view(&self) -> RegistryModel<H> {
        RegistryModel { shaders: self.shaders@, removed_at: self.removed_at@, epoch: self.epoch }
    }
}

impl<H> ShaderRegistry<H> {
    /// A registry without shaders.
    pub fn new() -> (registry: ShaderRegistry<H>)
        ensures
            registry@.wf(),
            registry@.shaders == Map::<u64, H>::empty(),
            registry@.removed_at == Map::<u64, u64>::empty(),
            registry@.epoch == 0,
    {
        ShaderRegistry { shaders: HashMap::new(), removed_at: HashMap::new(), epoch: 0 }
    }

    /// Number of removals so far.
    pub fn epoch(&self) -> (epoch: u64)
        ensures
            epoch == self@.epoch,
    {
        self.epoch
    }

    /// Starts a compilation of shader `shader_id`: hands out the ticket to
    /// finish it with. Until then lookups of the shader give what they gave
    /// before.
    pub fn set_shader(&self, shader_id: ShaderId) -> (ticket: CompileTicket)
        requires
            self@.wf(),
        ensures
            ticket == (CompileTicket { shader_id, epoch: self@.epoch }),
            !self@.cancelled(ticket),
    {
        CompileTicket { shader_id, epoch: self.epoch }
    }

    /// Takes the outcome of the compilation of `ticket`. The new pipelines
    /// are published unless a message reports an error or the shader was
    /// removed since the ticket was handed out; in both cases the registry
    /// stays as it was. Of several compilations of one id, the one finished
    /// last wins.
    pub fn finish_compile(
        &mut self,
        ticket: CompileTicket,
        pipelines: H,
        messages: &Vec<CompilationMessage>,
    ) -> (outcome: CompileOutcome)
        ensures
            outcome == old(self)@.outcome(ticket, messages@),
            final(self)@.shaders == if outcome is Installed {
                old(self)@.shaders.insert(ticket.shader_id.0, pipelines)
            } else {
                old(self)@.shaders
            },
            final(self)@.removed_at == old(self)@.removed_at,
            final(self)@.epoch == old(self)@.epoch,
    {
        if any_error(messages) {
            return CompileOutcome::Rejected;
        }
        let cancelled: bool = match self.removed_at.get(&ticket.shader_id.0) {
            Some(removed) => *removed >= ticket.epoch,
            None => false,
        };
        if cancelled {
            CompileOutcome::Discarded
        } else {
            self.shaders.insert(ticket.shader_id.0, pipelines);
            CompileOutcome::Installed
        }
    }

    /// Removes the entry of `shader_id`, if there is one, and cancels every
    /// compilation of that shader that has not finished yet. Compilations of
    /// other shaders are not touched.
    pub fn remove_shader(&mut self, shader_id: &ShaderId)
        requires
            old(self)@.wf(),
            old(self)@.epoch < u64::MAX,
        ensures
            final(self)@.wf(),
            final(self)@.shaders == old(self)@.shaders.remove(shader_id.0),
            final(self)@.removed_at == old(self)@.removed_at.insert(shader_id.0, old(self)@.epoch),
            final(self)@.epoch == old(self)@.epoch + 1,
            forall|ticket: CompileTicket|
                ticket.shader_id == *shader_id && ticket.epoch <= old(self)@.epoch
                    ==> #[trigger] final(self)@.cancelled(ticket),
            forall|ticket: CompileTicket|
                ticket.shader_id != *shader_id ==> #[trigger] final(self)@.cancelled(ticket) == old(
                    self,
                )@.cancelled(ticket),
    {
        self.shaders.remove(&shader_id.0);
        self.removed_at.insert(shader_id.0, self.epoch);
        self.epoch = self.epoch + 1;
        proof {
            assert forall|id: u64| self@.removed_at.contains_key(id) implies #[trigger] self@.removed_at[id]
                < self@.epoch by {
                if id != shader_id.0 {
                    assert(old(self)@.removed_at.contains_key(id));
                    assert(old(self)@.removed_at[id] < old(self)@.epoch);
                }
            }
        }
    }

    /// The compiled pipelines of `shader_id`, if any.
    pub fn lookup(&self, shader_id: &ShaderId) -> (found: Option<&H>)
        ensures
            found == if self@.shaders.contains_key(shader_id.0) {
                Some(&self@.shaders[shader_id.0])
            } else {
                None
            },
    {
        self.shaders.get(&shader_id.0)
    }

    /// The pipelines a model with shader `shader_id` renders with: its
    /// compiled pipelines where the registry has them, else `fallback`.
    pub fn resolve<'a>(&'a self, shader_id: &ShaderId, fallback: &'a H) -> (chosen: &'a H)
        ensures
            *chosen == if self@.shaders.contains_key(shader_id.0) {
                self@.shaders[shader_id.0]
            } else {
                *fallback
            },
    {
        match self.shaders.get(&shader_id.0) {
            Some(found) => found,
            None => fallback,
        }
    }

    /// Whether `shader_id` falls back.
    pub fn is_missing(&self, shader_id: &ShaderId) -> (missing: bool)
        ensures
            missing == !self@.shaders.contains_key(shader_id.0),
    {
        !self.shaders.contains_key(&shader_id.0)
    }
}

} // verus!
