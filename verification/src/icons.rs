//! The icon set of the application and where its files are.

use vstd::prelude::*;
use crate::text::{chars_of, push_str, string_of};

verus! {

/// The icons of the application.
#[derive(Clone, Copy, Debug, PartialEq, Eq, Structural)]
pub enum IconName {
    ArrowDown,
    ArrowUp,
    ArrowLeft,
    ArrowRight,
    SquarePen,
    X,
    Check,
    Eye,
    EyeOff,
    ChevronDown,
    ChevronRight,
    ChevronUp,
    BriefcaseBusiness,
    Stop,
    Close,
    Folder,
    FolderOpen,
    PanelBottom,
    PanelLeftClose,
    PanelLeftOpen,
    Plus,
    Send,
    Spinner,
    FolderTree,
    Trash,
    File,
    Rename,
    ExternalLink,
    WindowClose,
    WindowMaximize,
    WindowMinimize,
    WindowRestore,
    Copy,
    Inbox,
    Settings,
    Minus,
    Search,
    Undo2,
    Info,
    Variable,
    SquareMenu,
    Settings2,
    Menu,
    Monitor,
    SlidersHorizontal,
}

/// The file name of an icon: its variant name in kebab case.
pub open spec fn icon_name_spec(icon: IconName) -> Seq<char> {
    match icon {
        IconName::ArrowDown => "arrow-down"@,
        IconName::ArrowUp => "arrow-up"@,
        IconName::ArrowLeft => "arrow-left"@,
        IconName::ArrowRight => "arrow-right"@,
        IconName::SquarePen => "square-pen"@,
        IconName::X => "x"@,
        IconName::Check => "check"@,
        IconName::Eye => "eye"@,
        IconName::EyeOff => "eye-off"@,
        IconName::ChevronDown => "chevron-down"@,
        IconName::ChevronRight => "chevron-right"@,
        IconName::ChevronUp => "chevron-up"@,
        IconName::BriefcaseBusiness => "briefcase-business"@,
        IconName::Stop => "stop"@,
        IconName::Close => "close"@,
        IconName::Folder => "folder"@,
        IconName::FolderOpen => "folder-open"@,
        IconName::PanelBottom => "panel-bottom"@,
        IconName::PanelLeftClose => "panel-left-close"@,
        IconName::PanelLeftOpen => "panel-left-open"@,
        IconName::Plus => "plus"@,
        IconName::Send => "send"@,
        IconName::Spinner => "spinner"@,
        IconName::FolderTree => "folder-tree"@,
        IconName::Trash => "trash"@,
        IconName::File => "file"@,
        IconName::Rename => "rename"@,
        IconName::ExternalLink => "external-link"@,
        IconName::WindowClose => "window-close"@,
        IconName::WindowMaximize => "window-maximize"@,
        IconName::WindowMinimize => "window-minimize"@,
        IconName::WindowRestore => "window-restore"@,
        IconName::Copy => "copy"@,
        IconName::Inbox => "inbox"@,
        IconName::Settings => "settings"@,
        IconName::Minus => "minus"@,
        IconName::Search => "search"@,
        IconName::Undo2 => "undo2"@,
        IconName::Info => "info"@,
        IconName::Variable => "variable"@,
        IconName::SquareMenu => "square-menu"@,
        IconName::Settings2 => "settings2"@,
        IconName::Menu => "menu"@,
        IconName::Monitor => "monitor"@,
        IconName::SlidersHorizontal => "sliders-horizontal"@,
    }
}

impl IconName {
    /// The icon's name in kebab case.
    pub fn as_ref(&self) -> (r: &'static str)
        ensures
            r@ == icon_name_spec(*self),
    {
        match self {
            IconName::ArrowDown => "arrow-down",
            IconName::ArrowUp => "arrow-up",
            IconName::ArrowLeft => "arrow-left",
            IconName::ArrowRight => "arrow-right",
            IconName::SquarePen => "square-pen",
            IconName::X => "x",
            IconName::Check => "check",
            IconName::Eye => "eye",
            IconName::EyeOff => "eye-off",
            IconName::ChevronDown => "chevron-down",
            IconName::ChevronRight => "chevron-right",
            IconName::ChevronUp => "chevron-up",
            IconName::BriefcaseBusiness => "briefcase-business",
            IconName::Stop => "stop",
            IconName::Close => "close",
            IconName::Folder => "folder",
            IconName::FolderOpen => "folder-open",
            IconName::PanelBottom => "panel-bottom",
            IconName::PanelLeftClose => "panel-left-close",
            IconName::PanelLeftOpen => "panel-left-open",
            IconName::Plus => "plus",
            IconName::Send => "send",
            IconName::Spinner => "spinner",
            IconName::FolderTree => "folder-tree",
            IconName::Trash => "trash",
            IconName::File => "file",
            IconName::Rename => "rename",
            IconName::ExternalLink => "external-link",
            IconName::WindowClose => "window-close",
            IconName::WindowMaximize => "window-maximize",
            IconName::WindowMinimize => "window-minimize",
            IconName::WindowRestore => "window-restore",
            IconName::Copy => "copy",
            IconName::Inbox => "inbox",
            IconName::Settings => "settings",
            IconName::Minus => "minus",
            IconName::Search => "search",
            IconName::Undo2 => "undo2",
            IconName::Info => "info",
            IconName::Variable => "variable",
            IconName::SquareMenu => "square-menu",
            IconName::Settings2 => "settings2",
            IconName::Menu => "menu",
            IconName::Monitor => "monitor",
            IconName::SlidersHorizontal => "sliders-horizontal",
        }
    }

    /// The path of the icon's file: `icons/<name>.svg`.
    pub fn path(self) -> (r: String)
        ensures
            r@ == "icons/"@ + icon_name_spec(self) + ".svg"@,
    {
        let mut out = chars_of("icons/");
        push_str(&mut out, self.as_ref());
        push_str(&mut out, ".svg");
        string_of(out.as_slice())
    }
}

} // verus!
