//! State of the footer: which panels are open, where they are docked, and
//! whether the response toggle is shown.

use vstd::prelude::*;

verus! {

/// The side a sidebar is docked on.
#[derive(Clone, Copy, Debug, PartialEq, Eq, Structural)]
pub enum SidebarDock {
    Left,
    Right,
}

/// The footer's state. Each setter reports whether it changed anything,
/// the case in which the footer is redrawn.
#[derive(Clone, Copy, Debug, PartialEq, Eq, Structural)]
pub struct Footer {
    pub show_toggle: bool,
    pub file_panel_collapsed: bool,
    pub env_panel_collapsed: bool,
    pub response_collapsed: bool,
    pub file_panel_dock: SidebarDock,
    pub env_panel_dock: SidebarDock,
}

impl Footer {
    /// All panels collapsed, the file panel on the left, the environments
    /// panel on the right, no response toggle.
    pub fn new() -> (r: Self)
        ensures
            r == (Footer {
                show_toggle: false,
                file_panel_collapsed: true,
                env_panel_collapsed: true,
                response_collapsed: true,
                file_panel_dock: SidebarDock::Left,
                env_panel_dock: SidebarDock::Right,
            }),
    {
        Footer {
            show_toggle: false,
            file_panel_collapsed: true,
            env_panel_collapsed: true,
            response_collapsed: true,
            file_panel_dock: SidebarDock::Left,
            env_panel_dock: SidebarDock::Right,
        }
    }

    /// Shows or hides the response toggle.
    pub fn set_show_toggle(&mut self, show: bool) -> (changed: bool)
        ensures
            *final(self) == (Footer { show_toggle: show, ..*old(self) }),
            changed == (old(self).show_toggle != show),
    {
        if self.show_toggle == show {
            return false;
        }
        self.show_toggle = show;
        true
    }

    /// Collapses or expands the file panel.
    pub fn set_file_panel_collapsed(&mut self, collapsed: bool) -> (changed: bool)
        ensures
            *final(self) == (Footer { file_panel_collapsed: collapsed, ..*old(self) }),
            changed == (old(self).file_panel_collapsed != collapsed),
    {
        if self.file_panel_collapsed == collapsed {
            return false;
        }
        self.file_panel_collapsed = collapsed;
        true
    }

    /// Collapses or expands the environments panel.
    pub fn set_env_panel_collapsed(&mut self, collapsed: bool) -> (changed: bool)
        ensures
            *final(self) == (Footer { env_panel_collapsed: collapsed, ..*old(self) }),
            changed == (old(self).env_panel_collapsed != collapsed),
    {
        if self.env_panel_collapsed == collapsed {
            return false;
        }
        self.env_panel_collapsed = collapsed;
        true
    }

    /// Collapses or expands the response panel.
    pub fn set_response_collapsed(&mut self, collapsed: bool) -> (changed: bool)
        ensures
            *final(self) == (Footer { response_collapsed: collapsed, ..*old(self) }),
            changed == (old(self).response_collapsed != collapsed),
    {
        if self.response_collapsed == collapsed {
            return false;
        }
        self.response_collapsed = collapsed;
        true
    }

    /// Docks the file panel.
    pub fn set_file_panel_dock(&mut self, dock: SidebarDock) -> (changed: bool)
        ensures
            *final(self) == (Footer { file_panel_dock: dock, ..*old(self) }),
            changed == (old(self).file_panel_dock != dock),
    {
        if self.file_panel_dock == dock {
            return false;
        }
        self.file_panel_dock = dock;
        true
    }

    /// Docks the environments panel.
    pub fn set_env_panel_dock(&mut self, dock: SidebarDock) -> (changed: bool)
        ensures
            *final(self) == (Footer { env_panel_dock: dock, ..*old(self) }),
            changed == (old(self).env_panel_dock != dock),
    {
        if self.env_panel_dock == dock {
            return false;
        }
        self.env_panel_dock = dock;
        true
    }

    /// Whether the response toggle is shown.
    pub fn show_response_toggle(&self) -> (r: bool)
        ensures
            r == self.show_toggle,
    {
        self.show_toggle
    }

    /// Whether the file panel is open.
    pub fn file_panel_open(&self) -> (r: bool)
        ensures
            r == !self.file_panel_collapsed,
    {
        !self.file_panel_collapsed
    }

    /// Whether the environments panel is open.
    pub fn env_panel_open(&self) -> (r: bool)
        ensures
            r == !self.env_panel_collapsed,
    {
        !self.env_panel_collapsed
    }

    /// Whether the response panel is open.
    pub fn response_open(&self) -> (r: bool)
        ensures
            r == !self.response_collapsed,
    {
        !self.response_collapsed
    }

    /// Where the file panel is docked.
    pub fn file_panel_dock(&self) -> (r: SidebarDock)
        ensures
            r == self.file_panel_dock,
    {
        self.file_panel_dock
    }

    /// Where the environments panel is docked.
    pub fn env_panel_dock(&self) -> (r: SidebarDock)
        ensures
            r == self.env_panel_dock,
    {
        self.env_panel_dock
    }
}

} // verus!
