use vstd::prelude::*;

verus! {

/// A section of the sidebar.
pub enum SidebarSection {
    System,
    Performance,
    AiCluster,
    DevTools,
    Sandboxes,
    /// A tab opened for a detached file or process, by id.
    DebugTab(usize),
}

/// A sidebar tab attached to a process under inspection.
pub struct DebugSubTab {
    pub id: usize,
    pub title: String,
    pub target_pid: u32,
    pub icon: String,
}

} // verus!
