//! The commands that menus, key bindings and views dispatch.

use vstd::prelude::*;

verus! {

/// Copy the current request as code.
#[derive(Clone, Copy, Debug, PartialEq, Eq, Structural)]
pub struct CopyAsCode;

/// Dock the file panel on the left.
#[derive(Clone, Copy, Debug, PartialEq, Eq, Structural)]
pub struct DockSidebarLeft;

/// Dock the file panel on the right.
#[derive(Clone, Copy, Debug, PartialEq, Eq, Structural)]
pub struct DockSidebarRight;

/// Dock the environments panel on the left.
#[derive(Clone, Copy, Debug, PartialEq, Eq, Structural)]
pub struct DockEnvPanelLeft;

/// Dock the environments panel on the right.
#[derive(Clone, Copy, Debug, PartialEq, Eq, Structural)]
pub struct DockEnvPanelRight;

/// Open the settings window.
#[derive(Clone, Copy, Debug, PartialEq, Eq, Structural)]
pub struct OpenSettings;

/// Quit the application.
#[derive(Clone, Copy, Debug, PartialEq, Eq, Structural)]
pub struct QuitArc;

/// Copy the settings to the clipboard.
#[derive(Clone, Copy, Debug, PartialEq, Eq, Structural)]
pub struct CopySettings;

/// Switch to another theme.
#[derive(Clone, Copy, Debug, PartialEq, Eq, Structural)]
pub struct ThemeChange;

/// Copy an environment's variables to the clipboard.
#[derive(Clone, Copy, Debug, PartialEq, Eq, Structural)]
pub struct CopyEnv;

/// Delete an environment.
#[derive(Clone, Copy, Debug, PartialEq, Eq, Structural)]
pub struct DeleteEnv;

/// Create a request file in the chosen folder.
#[derive(Clone, Copy, Debug, PartialEq, Eq, Structural)]
pub struct CreateFile;

/// Create a folder in the chosen folder.
#[derive(Clone, Copy, Debug, PartialEq, Eq, Structural)]
pub struct CreateFolder;

/// Delete the chosen file or folder.
#[derive(Clone, Copy, Debug, PartialEq, Eq, Structural)]
pub struct DeleteItem;

/// Move the chosen file or folder to the trash.
#[derive(Clone, Copy, Debug, PartialEq, Eq, Structural)]
pub struct TrashItem;

/// Open the stress-test playground.
#[derive(Clone, Copy, Debug, PartialEq, Eq, Structural)]
pub struct StressTestPlayground;

/// Rename the chosen file or folder.
#[derive(Clone, Copy, Debug, PartialEq, Eq, Structural)]
pub struct RenameItem;

/// Copy the chosen item's path.
#[derive(Clone, Copy, Debug, PartialEq, Eq, Structural)]
pub struct CopyPath;

/// Copy the chosen item's path relative to the workspace.
#[derive(Clone, Copy, Debug, PartialEq, Eq, Structural)]
pub struct CopyRelativePath;

} // verus!
