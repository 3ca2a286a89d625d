//! The controls and menus of the window, by their numbers.

use crate::wide::utf16;
use vstd::prelude::*;

verus! {

pub const ID_OPEN: usize = 1001;

pub const ID_SETTINGS: usize = 1002;

pub const ID_EXIT: usize = 1003;

pub const ID_PATH: usize = 2001;

pub const ID_NAME: usize = 2002;

pub const ID_STARTUP: usize = 2003;

pub const ID_SAVE: usize = 2004;

pub const ID_CANCEL: usize = 2005;

pub const ID_OPEN_FOLDER: usize = 2006;

pub const ID_REMOTE_ROOT: usize = 2008;

pub const ID_STORAGE_SCAN: usize = 2009;

pub const ID_STORAGE_RELEASE: usize = 2010;

pub const ID_LOGIN: usize = 2011;

pub const ID_QR_CANCEL: usize = 2012;

pub const ID_TAB_SETTINGS: usize = 2013;

pub const ID_TAB_LOG: usize = 2014;

pub const ID_LOG_REFRESH: usize = 2015;

pub const ID_LOG_CLEAR: usize = 2016;

/// What the user wants.
#[derive(Clone, Copy, Debug, PartialEq, Eq, Structural)]
pub enum AppCommand {
    OpenFolder,
    ShowSettings,
    ShowSettingsTab,
    ShowLogTab,
    RefreshLog,
    ClearLog,
    Hide,
    Exit,
    Save,
    ScanStorage,
    Login,
    ReleaseStorage,
}

/// What a control or a menu entry stands for. Those that only hold a value, and
/// those of the login window, stand for nothing here.
pub open spec fn meaning(id: int) -> Option<AppCommand> {
    if id == ID_OPEN || id == ID_OPEN_FOLDER {
        Some(AppCommand::OpenFolder)
    } else if id == ID_SETTINGS {
        Some(AppCommand::ShowSettings)
    } else if id == ID_TAB_SETTINGS {
        Some(AppCommand::ShowSettingsTab)
    } else if id == ID_TAB_LOG {
        Some(AppCommand::ShowLogTab)
    } else if id == ID_LOG_REFRESH {
        Some(AppCommand::RefreshLog)
    } else if id == ID_LOG_CLEAR {
        Some(AppCommand::ClearLog)
    } else if id == ID_CANCEL {
        Some(AppCommand::Hide)
    } else if id == ID_EXIT {
        Some(AppCommand::Exit)
    } else if id == ID_SAVE {
        Some(AppCommand::Save)
    } else if id == ID_STORAGE_SCAN {
        Some(AppCommand::ScanStorage)
    } else if id == ID_LOGIN {
        Some(AppCommand::Login)
    } else if id == ID_STORAGE_RELEASE {
        Some(AppCommand::ReleaseStorage)
    } else {
        None
    }
}

/// What a command message stands for: its lower 16 bits name the control.
pub fn handle_command(message: usize) -> (r: Option<AppCommand>)
    ensures
        r == meaning(message as int % 0x10000),
{
    let id: usize = message % 0x10000;
    match id {
        1001 | 2006 => Some(AppCommand::OpenFolder),
        1002 => Some(AppCommand::ShowSettings),
        2013 => Some(AppCommand::ShowSettingsTab),
        2014 => Some(AppCommand::ShowLogTab),
        2015 => Some(AppCommand::RefreshLog),
        2016 => Some(AppCommand::ClearLog),
        2005 => Some(AppCommand::Hide),
        1003 => Some(AppCommand::Exit),
        2004 => Some(AppCommand::Save),
        2009 => Some(AppCommand::ScanStorage),
        2011 => Some(AppCommand::Login),
        2010 => Some(AppCommand::ReleaseStorage),
        _ => None,
    }
}

/// Whether a command message of the login window cancels the login.
pub fn cancels_login(message: usize) -> (r: bool)
    ensures
        r == (message as int % 0x10000 == ID_QR_CANCEL),
{
    message % 0x10000 == ID_QR_CANCEL
}

/// What the user wants of the icon in the notification area.
#[derive(Clone, Copy, Debug, PartialEq, Eq, Structural)]
pub enum TrayCommand {
    ShowSettings,
    ShowMenu,
}

/// A double click with the left button.
pub const LEFT_DOUBLE_CLICK: u32 = 0x0203;

/// The right button is let go.
pub const RIGHT_BUTTON_UP: u32 = 0x0205;

/// The menu key.
pub const CONTEXT_MENU: u32 = 0x007b;

/// What an event of the icon in the notification area stands for: a double click
/// opens the settings, a right click the menu.
pub fn tray_command(event: u32) -> (r: Option<TrayCommand>)
    ensures
        r == (if event == LEFT_DOUBLE_CLICK {
            Some(TrayCommand::ShowSettings)
        } else if event == RIGHT_BUTTON_UP || event == CONTEXT_MENU {
            Some(TrayCommand::ShowMenu)
        } else {
            None
        }),
{
    if event == LEFT_DOUBLE_CLICK {
        Some(TrayCommand::ShowSettings)
    } else if event == RIGHT_BUTTON_UP || event == CONTEXT_MENU {
        Some(TrayCommand::ShowMenu)
    } else {
        None
    }
}

/// The text beside the icon in the notification area.
pub open spec fn tray_line(connected: bool) -> Seq<char> {
    if connected {
        "夸克网盘 - 已挂载"@
    } else {
        "夸克网盘 - 需要扫码登录"@
    }
}

/// The text beside the icon in the notification area.
pub fn tray_tip(connected: bool) -> (r: String)
    ensures
        r@ == tray_line(connected),
{
    if connected {
        "夸克网盘 - 已挂载".to_owned()
    } else {
        "夸克网盘 - 需要扫码登录".to_owned()
    }
}

proof fn lemma_short_utf16(s: Seq<char>)
    ensures
        utf16(s).len() <= 2 * s.len(),
    decreases s.len(),
{
    if s.len() > 0 {
        lemma_short_utf16(s.drop_last());
    }
}

/// The text beside the icon fits the 128 units that there are for it, the zero
/// behind it included.
pub proof fn law_tray_line_fits(connected: bool)
    ensures
        utf16(tray_line(connected)).len() < 128,
{
    lemma_short_utf16(tray_line(connected));
    reveal_strlit("夸克网盘 - 已挂载");
    reveal_strlit("夸克网盘 - 需要扫码登录");
}

} // verus!
