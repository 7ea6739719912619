//! The icons of the user interface.

use vstd::prelude::*;

verus! {

/// An icon.
#[derive(Debug, Clone, Copy, PartialEq, Eq, Structural)]
pub enum Icon {
    Settings,
    Minimize,
    Maximize,
    Close,
    Monitor,
    ChevronRight,
    ChevronDown,
    ChevronUp,
    Search,
    Eye,
    EyeOff,
    Shield,
    MoreHorizontal,
    Minus,
    Plus,
    Sliders,
    Keyboard,
    Info,
    Scan,
    ZoomIn,
    Pointer,
    Clipboard,
    User,
    Trash,
    Undo,
    Fullscreen,
    Pin,
}

/// The name of the file that an icon is drawn from.
pub open spec fn asset_of(icon: Icon) -> Seq<char> {
    match icon {
        Icon::Settings => "settings.svg"@,
        Icon::Minimize => "minus.svg"@,
        Icon::Maximize => "maximize.svg"@,
        Icon::Close => "close.svg"@,
        Icon::Monitor => "monitor.svg"@,
        Icon::ChevronRight => "chevron-right.svg"@,
        Icon::ChevronDown => "chevron-down.svg"@,
        Icon::ChevronUp => "chevron-up.svg"@,
        Icon::Search => "search.svg"@,
        Icon::Eye => "eye.svg"@,
        Icon::EyeOff => "eye-off.svg"@,
        Icon::Shield => "shield.svg"@,
        Icon::MoreHorizontal => "more-horizontal.svg"@,
        Icon::Minus => "minus.svg"@,
        Icon::Plus => "plus.svg"@,
        Icon::Sliders => "sliders.svg"@,
        Icon::Keyboard => "keyboard.svg"@,
        Icon::Info => "info.svg"@,
        Icon::Scan => "scan.svg"@,
        Icon::ZoomIn => "zoom-in.svg"@,
        Icon::Pointer => "pointer.svg"@,
        Icon::Clipboard => "clipboard.svg"@,
        Icon::User => "user.svg"@,
        Icon::Trash => "trash.svg"@,
        Icon::Undo => "undo.svg"@,
        Icon::Fullscreen => "fullscreen.svg"@,
        Icon::Pin => "pin.svg"@,
    }
}

impl Icon {
    /// The name of the file that the icon is drawn from.
    pub fn asset(self) -> (name: &'static str)
        ensures
            name@ == asset_of(self),
    {
        match self {
            Icon::Settings => "settings.svg",
            Icon::Minimize => "minus.svg",
            Icon::Maximize => "maximize.svg",
            Icon::Close => "close.svg",
            Icon::Monitor => "monitor.svg",
            Icon::ChevronRight => "chevron-right.svg",
            Icon::ChevronDown => "chevron-down.svg",
            Icon::ChevronUp => "chevron-up.svg",
            Icon::Search => "search.svg",
            Icon::Eye => "eye.svg",
            Icon::EyeOff => "eye-off.svg",
            Icon::Shield => "shield.svg",
            Icon::MoreHorizontal => "more-horizontal.svg",
            Icon::Minus => "minus.svg",
            Icon::Plus => "plus.svg",
            Icon::Sliders => "sliders.svg",
            Icon::Keyboard => "keyboard.svg",
            Icon::Info => "info.svg",
            Icon::Scan => "scan.svg",
            Icon::ZoomIn => "zoom-in.svg",
            Icon::Pointer => "pointer.svg",
            Icon::Clipboard => "clipboard.svg",
            Icon::User => "user.svg",
            Icon::Trash => "trash.svg",
            Icon::Undo => "undo.svg",
            Icon::Fullscreen => "fullscreen.svg",
            Icon::Pin => "pin.svg",
        }
    }
}

} // verus!
