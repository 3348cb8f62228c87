//! When the saved workflows (brushes, actions, export recipes) are synced
//! with the cloud: only when connected to a cloud that carries them, with
//! no dialog, field or recording in the way, one sync at a time, and about
//! every 400 ticks, or at once after a library changed.
use vstd::prelude::*;
use crate::recipes::workflow_delay;
use crate::workspace::Workspace;

verus! {

/// `new` is `old` after one tick of the workflow sync's count, and `due`
/// whether a sync is due.
pub open spec fn ticked(pre: Workspace, post: Workspace, due: bool) -> bool {
    let t = if pre.workflow_ticks < u16::MAX { pre.workflow_ticks + 1 } else { u16::MAX as int };
    if pre.workflows_running {
        !due && post == pre
    } else if t < workflow_delay() {
        !due && post == (Workspace { workflow_ticks: t as u16, ..pre })
    } else {
        due && post == (Workspace { workflow_ticks: 0, ..pre })
    }
}

impl Workspace {
    /// Whether the workflow sync may look at anything this tick: the
    /// connection is up and the cloud carries workflows, and no dialog, no
    /// focused field and no recording or replay could be disturbed.
    pub fn workflows_may_sync(&self, carries_workflows: bool, recording: bool) -> (r: bool)
        ensures
            r == (self.documents.connected && carries_workflows && self.modal is None && self.focused_field is None
                && !recording),
    {
        self.documents.connected && carries_workflows && self.modal.is_none() && self.focused_field.is_none()
            && !recording
    }

    /// The running sync's answer was taken in.
    pub fn workflows_result_taken(&mut self)
        ensures
            *final(self) == (Workspace { workflows_running: false, ..*old(self) }),
    {
        self.workflows_running = false;
    }

    /// Count a tick towards the next sync: true, restarting the count, when
    /// one is due. Nothing counts while a sync runs.
    pub fn workflows_due(&mut self) -> (due: bool)
        ensures
            ticked(*old(self), *final(self), due),
    {
        if self.workflows_running {
            return false;
        }
        self.workflow_ticks = self.workflow_ticks.saturating_add(1);
        if self.workflow_ticks < 400 {
            return false;
        }
        self.workflow_ticks = 0;
        true
    }

    /// A sync was sent off.
    pub fn workflows_started(&mut self)
        ensures
            *final(self) == (Workspace { workflows_running: true, ..*old(self) }),
    {
        self.workflows_running = true;
    }
}

/// After a library changed, the next tick that counts starts a sync.
pub proof fn lemma_change_syncs_next_tick(a: Workspace, b: Workspace, c: Workspace, due: bool)
    requires
        b == (Workspace { workflow_ticks: workflow_delay(), ..a }),
        !b.workflows_running,
        ticked(b, c, due),
    ensures
        due,
        c.workflow_ticks == 0,
{
}

} // verus!
