//! The methods that requests name.

use vstd::prelude::*;

use crate::text::same_text;

verus! {

pub const LIST_TABS: &'static str = "list_tabs";

pub const NEW_TAB: &'static str = "new_tab";

pub const CLOSE_TAB: &'static str = "close_tab";

pub const FOCUS_TAB: &'static str = "focus_tab";

pub const SPLIT_PANE: &'static str = "split_pane";

pub const SEND_INPUT: &'static str = "send_input";

pub const GET_SCREEN: &'static str = "get_screen";

pub const GET_PANE_INFO: &'static str = "get_pane_info";

pub const SUBSCRIBE_OUTPUT: &'static str = "subscribe_output";

pub const SUBSCRIBE_LAYOUT: &'static str = "subscribe_layout";

pub const RESIZE_PANE: &'static str = "resize_pane";

pub const SEND_SIGINT: &'static str = "send_sigint";

pub const LIST_DEVICES: &'static str = "list_devices";

pub const REVOKE_DEVICE: &'static str = "revoke_device";

pub const GET_PAIRING_INFO: &'static str = "get_pairing_info";

pub const ENABLE_PAIRING: &'static str = "enable_pairing";

pub const PRESEED_SNAPSHOT: &'static str = "preseed_snapshot";

pub const GET_LAYOUT: &'static str = "get_layout";

pub const MOVE_TAB: &'static str = "move_tab";

pub const CLOSE_PANE: &'static str = "close_pane";

pub const CREATE_WORKSPACE: &'static str = "create_workspace";

pub const RENAME_WORKSPACE: &'static str = "rename_workspace";

pub const DELETE_WORKSPACE: &'static str = "delete_workspace";

pub const SET_ACTIVE_WORKSPACE: &'static str = "set_active_workspace";

pub const UPDATE_SPLIT_RATIOS: &'static str = "update_split_ratios";

pub const SET_PINNED: &'static str = "set_pinned";

pub const GET_PINNED: &'static str = "get_pinned";

pub const IS_ATTACHED: &'static str = "is_attached";

/// Exit at once without saving.
pub const SHUTDOWN: &'static str = "shutdown";

/// Save the session, then exit.
pub const SHUTDOWN_SAVE: &'static str = "shutdown_save";

/// Save the session into the trash, then exit.
pub const SHUTDOWN_CLEAN: &'static str = "shutdown_clean";

/// The window closes, the daemon stays.
pub const DISCONNECT: &'static str = "disconnect";

/// A client reports a notification.
pub const NOTIFY: &'static str = "notify";

/// A method that is answered at once.
#[derive(Clone, Copy, Debug, PartialEq, Eq, Structural)]
pub enum Method {
    ListTabs,
    GetLayout,
    NewTab,
    CloseTab,
    FocusTab,
    SetActiveWorkspace,
    SplitPane,
    MoveTab,
    SendInput,
    GetPaneInfo,
    ResizePane,
    SendSigint,
    Notify,
    ClosePane,
    CreateWorkspace,
    RenameWorkspace,
    DeleteWorkspace,
    UpdateSplitRatios,
    SetPinned,
    GetPinned,
    ListDevices,
    RevokeDevice,
    GetPairingInfo,
    EnablePairing,
    Unknown,
}

/// The method with a name.
pub open spec fn method_named(name: Seq<char>) -> Method {
    if name == LIST_TABS@ {
        Method::ListTabs
    } else if name == GET_LAYOUT@ {
        Method::GetLayout
    } else if name == NEW_TAB@ {
        Method::NewTab
    } else if name == CLOSE_TAB@ {
        Method::CloseTab
    } else if name == FOCUS_TAB@ {
        Method::FocusTab
    } else if name == SET_ACTIVE_WORKSPACE@ {
        Method::SetActiveWorkspace
    } else if name == SPLIT_PANE@ {
        Method::SplitPane
    } else if name == MOVE_TAB@ {
        Method::MoveTab
    } else if name == SEND_INPUT@ {
        Method::SendInput
    } else if name == GET_PANE_INFO@ {
        Method::GetPaneInfo
    } else if name == RESIZE_PANE@ {
        Method::ResizePane
    } else if name == SEND_SIGINT@ {
        Method::SendSigint
    } else if name == NOTIFY@ {
        Method::Notify
    } else if name == CLOSE_PANE@ {
        Method::ClosePane
    } else if name == CREATE_WORKSPACE@ {
        Method::CreateWorkspace
    } else if name == RENAME_WORKSPACE@ {
        Method::RenameWorkspace
    } else if name == DELETE_WORKSPACE@ {
        Method::DeleteWorkspace
    } else if name == UPDATE_SPLIT_RATIOS@ {
        Method::UpdateSplitRatios
    } else if name == SET_PINNED@ {
        Method::SetPinned
    } else if name == GET_PINNED@ {
        Method::GetPinned
    } else if name == LIST_DEVICES@ {
        Method::ListDevices
    } else if name == REVOKE_DEVICE@ {
        Method::RevokeDevice
    } else if name == GET_PAIRING_INFO@ {
        Method::GetPairingInfo
    } else if name == ENABLE_PAIRING@ {
        Method::EnablePairing
    } else {
        Method::Unknown
    }
}

/// Every method is reached by its name, and by no other.
pub proof fn law_method_has_one_name(name: Seq<char>)
    ensures
        method_named(name) == Method::ListTabs <==> name == "list_tabs"@,
        method_named(name) == Method::GetLayout <==> name == "get_layout"@,
        method_named(name) == Method::NewTab <==> name == "new_tab"@,
        method_named(name) == Method::CloseTab <==> name == "close_tab"@,
        method_named(name) == Method::FocusTab <==> name == "focus_tab"@,
        method_named(name) == Method::SetActiveWorkspace <==> name == "set_active_workspace"@,
        method_named(name) == Method::SplitPane <==> name == "split_pane"@,
        method_named(name) == Method::MoveTab <==> name == "move_tab"@,
        method_named(name) == Method::SendInput <==> name == "send_input"@,
        method_named(name) == Method::GetPaneInfo <==> name == "get_pane_info"@,
        method_named(name) == Method::ResizePane <==> name == "resize_pane"@,
        method_named(name) == Method::SendSigint <==> name == "send_sigint"@,
        method_named(name) == Method::Notify <==> name == "notify"@,
        method_named(name) == Method::ClosePane <==> name == "close_pane"@,
        method_named(name) == Method::CreateWorkspace <==> name == "create_workspace"@,
        method_named(name) == Method::RenameWorkspace <==> name == "rename_workspace"@,
        method_named(name) == Method::DeleteWorkspace <==> name == "delete_workspace"@,
        method_named(name) == Method::UpdateSplitRatios <==> name == "update_split_ratios"@,
        method_named(name) == Method::SetPinned <==> name == "set_pinned"@,
        method_named(name) == Method::GetPinned <==> name == "get_pinned"@,
        method_named(name) == Method::ListDevices <==> name == "list_devices"@,
        method_named(name) == Method::RevokeDevice <==> name == "revoke_device"@,
        method_named(name) == Method::GetPairingInfo <==> name == "get_pairing_info"@,
        method_named(name) == Method::EnablePairing <==> name == "enable_pairing"@,
{
    reveal_strlit("list_tabs");
    reveal_strlit("get_layout");
    reveal_strlit("new_tab");
    reveal_strlit("close_tab");
    reveal_strlit("focus_tab");
    reveal_strlit("set_active_workspace");
    reveal_strlit("split_pane");
    reveal_strlit("move_tab");
    reveal_strlit("send_input");
    reveal_strlit("get_pane_info");
    reveal_strlit("resize_pane");
    reveal_strlit("send_sigint");
    reveal_strlit("notify");
    reveal_strlit("close_pane");
    reveal_strlit("create_workspace");
    reveal_strlit("rename_workspace");
    reveal_strlit("delete_workspace");
    reveal_strlit("update_split_ratios");
    reveal_strlit("set_pinned");
    reveal_strlit("get_pinned");
    reveal_strlit("list_devices");
    reveal_strlit("revoke_device");
    reveal_strlit("get_pairing_info");
    reveal_strlit("enable_pairing");
    assert("list_tabs"@.len() == 9);
    assert("get_layout"@.len() == 10);
    assert("new_tab"@.len() == 7);
    assert("close_tab"@.len() == 9);
    assert("focus_tab"@.len() == 9);
    assert("set_active_workspace"@.len() == 20);
    assert("split_pane"@.len() == 10);
    assert("move_tab"@.len() == 8);
    assert("send_input"@.len() == 10);
    assert("get_pane_info"@.len() == 13);
    assert("resize_pane"@.len() == 11);
    assert("send_sigint"@.len() == 11);
    assert("notify"@.len() == 6);
    assert("close_pane"@.len() == 10);
    assert("create_workspace"@.len() == 16);
    assert("rename_workspace"@.len() == 16);
    assert("delete_workspace"@.len() == 16);
    assert("update_split_ratios"@.len() == 19);
    assert("set_pinned"@.len() == 10);
    assert("get_pinned"@.len() == 10);
    assert("list_devices"@.len() == 12);
    assert("revoke_device"@.len() == 13);
    assert("get_pairing_info"@.len() == 16);
    assert("enable_pairing"@.len() == 14);
    assert("list_tabs"@[0] == 'l');
    assert("close_tab"@[0] == 'c');
    assert("focus_tab"@[0] == 'f');
    assert("get_layout"@[0] == 'g' && "get_layout"@[4] == 'l');
    assert("split_pane"@[0] == 's' && "split_pane"@[1] == 'p');
    assert("send_input"@[0] == 's' && "send_input"@[1] == 'e' && "send_input"@[2] == 'n');
    assert("close_pane"@[0] == 'c');
    assert("set_pinned"@[0] == 's' && "set_pinned"@[1] == 'e' && "set_pinned"@[2] == 't');
    assert("get_pinned"@[0] == 'g' && "get_pinned"@[4] == 'p');
    assert("resize_pane"@[0] == 'r');
    assert("send_sigint"@[0] == 's');
    assert("get_pane_info"@[0] == 'g');
    assert("revoke_device"@[0] == 'r');
    assert("create_workspace"@[0] == 'c');
    assert("rename_workspace"@[0] == 'r');
    assert("delete_workspace"@[0] == 'd');
    assert("get_pairing_info"@[0] == 'g');
}

/// Finds the method with a name.
pub fn method_of(name: &str) -> (m: Method)
    ensures
        m == method_named(name@),
{
    if same_text(name, LIST_TABS) {
        Method::ListTabs
    } else if same_text(name, GET_LAYOUT) {
        Method::GetLayout
    } else if same_text(name, NEW_TAB) {
        Method::NewTab
    } else if same_text(name, CLOSE_TAB) {
        Method::CloseTab
    } else if same_text(name, FOCUS_TAB) {
        Method::FocusTab
    } else if same_text(name, SET_ACTIVE_WORKSPACE) {
        Method::SetActiveWorkspace
    } else if same_text(name, SPLIT_PANE) {
        Method::SplitPane
    } else if same_text(name, MOVE_TAB) {
        Method::MoveTab
    } else if same_text(name, SEND_INPUT) {
        Method::SendInput
    } else if same_text(name, GET_PANE_INFO) {
        Method::GetPaneInfo
    } else if same_text(name, RESIZE_PANE) {
        Method::ResizePane
    } else if same_text(name, SEND_SIGINT) {
        Method::SendSigint
    } else if same_text(name, NOTIFY) {
        Method::Notify
    } else if same_text(name, CLOSE_PANE) {
        Method::ClosePane
    } else if same_text(name, CREATE_WORKSPACE) {
        Method::CreateWorkspace
    } else if same_text(name, RENAME_WORKSPACE) {
        Method::RenameWorkspace
    } else if same_text(name, DELETE_WORKSPACE) {
        Method::DeleteWorkspace
    } else if same_text(name, UPDATE_SPLIT_RATIOS) {
        Method::UpdateSplitRatios
    } else if same_text(name, SET_PINNED) {
        Method::SetPinned
    } else if same_text(name, GET_PINNED) {
        Method::GetPinned
    } else if same_text(name, LIST_DEVICES) {
        Method::ListDevices
    } else if same_text(name, REVOKE_DEVICE) {
        Method::RevokeDevice
    } else if same_text(name, GET_PAIRING_INFO) {
        Method::GetPairingInfo
    } else if same_text(name, ENABLE_PAIRING) {
        Method::EnablePairing
    } else {
        Method::Unknown
    }
}

} // verus!
