//! Live execution progress of a node of the node graph.

use vstd::prelude::*;

verus! {

/// Progress of a node that is running: `current` of `total` steps, a
/// label, and an error message once the node has failed.
pub struct NodeProgress {
    pub current: u32,
    pub total: u32,
    pub label: String,
    pub error: Option<String>,
}

impl NodeProgress {
    /// No progress, no label, no error.
    pub fn default_progress() -> (p: NodeProgress)
        ensures
            p.current == 0,
            p.total == 0,
            p.label@ == Seq::<char>::empty(),
            p.error is None,
    {
        NodeProgress { current: 0, total: 0, label: String::new(), error: None }
    }

    /// Whether the node has entered an error state.
    pub fn is_error(&self) -> (b: bool)
        ensures
            b == self.error is Some,
    {
        self.error.is_some()
    }

    /// Records a step: `current` of `total`, with `label`; a fresh step
    /// clears any earlier error.
    pub fn set_step(&mut self, current: u32, total: u32, label: &str)
        ensures
            final(self).current == current,
            final(self).total == total,
            final(self).label@ == label@,
            final(self).error is None,
    {
        self.current = current;
        self.total = total;
        self.label = label.to_owned();
        self.error = None;
    }

    /// Marks the node as failed with `msg`, keeping its progress.
    pub fn set_error(&mut self, msg: &str)
        ensures
            final(self).current == old(self).current,
            final(self).total == old(self).total,
            final(self).label@ == old(self).label@,
            final(self).error matches Some(e) && e@ == msg@,
    {
        self.error = Some(msg.to_owned());
    }
}

} // verus!
