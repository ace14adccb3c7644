//! The icon set of the response and tab panels and where its files are.

use vstd::prelude::*;
use crate::text::{chars_of, push_str, string_of};

verus! {

/// The icons of the application.
#[derive(Clone, Copy, Debug, PartialEq, Eq, Structural)]
pub enum IconName {
    ArrowDown,
    ArrowUp,
    Check,
    ChevronDown,
    ChevronRight,
    ChevronUp,
    Close,
    Folder,
    FolderOpen,
    PanelBottom,
    PanelLeftClose,
    PanelLeftOpen,
    Plus,
    Send,
    Spinner,
    Trash,
    File,
    Rename,
    WindowClose,
    WindowMaximize,
    WindowMinimize,
    WindowRestore,
    Copy,
}

/// The file name of an icon: its variant name in kebab case.
pub open spec fn icon_name_spec(icon: IconName) -> Seq<char> {
    match icon {
        IconName::ArrowDown => "arrow-down"@,
        IconName::ArrowUp => "arrow-up"@,
        IconName::Check => "check"@,
        IconName::ChevronDown => "chevron-down"@,
        IconName::ChevronRight => "chevron-right"@,
        IconName::ChevronUp => "chevron-up"@,
        IconName::Close => "close"@,
        IconName::Folder => "folder"@,
        IconName::FolderOpen => "folder-open"@,
        IconName::PanelBottom => "panel-bottom"@,
        IconName::PanelLeftClose => "panel-left-close"@,
        IconName::PanelLeftOpen => "panel-left-open"@,
        IconName::Plus => "plus"@,
        IconName::Send => "send"@,
        IconName::Spinner => "spinner"@,
        IconName::Trash => "trash"@,
        IconName::File => "file"@,
        IconName::Rename => "rename"@,
        IconName::WindowClose => "window-close"@,
        IconName::WindowMaximize => "window-maximize"@,
        IconName::WindowMinimize => "window-minimize"@,
        IconName::WindowRestore => "window-restore"@,
        IconName::Copy => "copy"@,
    }
}

impl IconName {
    /// The icon's name in kebab case.
    pub fn as_ref(&self) -> (r: &'static str)
        ensures
            r@ == icon_name_spec(*self),
    {
        match self {
            IconName::ArrowDown => "arrow-down",
            IconName::ArrowUp => "arrow-up",
            IconName::Check => "check",
            IconName::ChevronDown => "chevron-down",
            IconName::ChevronRight => "chevron-right",
            IconName::ChevronUp => "chevron-up",
            IconName::Close => "close",
            IconName::Folder => "folder",
            IconName::FolderOpen => "folder-open",
            IconName::PanelBottom => "panel-bottom",
            IconName::PanelLeftClose => "panel-left-close",
            IconName::PanelLeftOpen => "panel-left-open",
            IconName::Plus => "plus",
            IconName::Send => "send",
            IconName::Spinner => "spinner",
            IconName::Trash => "trash",
            IconName::File => "file",
            IconName::Rename => "rename",
            IconName::WindowClose => "window-close",
            IconName::WindowMaximize => "window-maximize",
            IconName::WindowMinimize => "window-minimize",
            IconName::WindowRestore => "window-restore",
            IconName::Copy => "copy",
        }
    }

    /// The path of the icon's file: `icons/<name>.svg`.
    pub fn path(self) -> (r: String)
        ensures
            r@ == "icons/"@ + icon_name_spec(self) + ".svg"@,
    {
        let mut out = chars_of("icons/");
        push_str(&mut out, self.as_ref());
        push_str(&mut out, ".svg");
        string_of(out.as_slice())
    }
}

} // verus!
