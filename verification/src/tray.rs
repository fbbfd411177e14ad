//! The tray menu: its labels, which entries are enabled, and what each entry
//! does.
use vstd::prelude::*;
use crate::server::{local_server_url, local_url_spec};
use crate::text::{decimal, decimal_spec, opt_str_view, str_eq};

verus! {

/// The parts of the tray menu that depend on the state.
pub struct TrayMenu {
    /// `Port: <port>`, in the Server Port submenu.
    pub port_label: String,
    /// The first line of the Remote Server submenu.
    pub remote_label: String,
    /// Whether "Disconnect (use Local Server)" is enabled.
    pub disconnect_enabled: bool,
}

/// The remote submenu's label: `Connected: <url>`, or that the embedded
/// server is in use.
pub open spec fn remote_label_spec(remote_url: Option<Seq<char>>) -> Seq<char> {
    match remote_url {
        Some(u) => "Connected: "@ + u,
        None => "Using local embedded server"@,
    }
}

/// The menu for the given port and remote server.
pub fn tray_menu(port: u16, remote_url: Option<&str>) -> (r: TrayMenu)
    ensures
        r.port_label@ == "Port: "@ + decimal_spec(port as nat),
        r.remote_label@ == remote_label_spec(opt_str_view(remote_url)),
        r.disconnect_enabled == (remote_url is Some),
{
    let mut port_label = "Port: ".to_owned();
    let d = decimal(port as u64);
    port_label.append(d.as_str());
    let remote_label = match remote_url {
        Some(u) => {
            let mut l = "Connected: ".to_owned();
            l.append(u);
            l
        },
        None => "Using local embedded server".to_owned(),
    };
    TrayMenu { port_label, remote_label, disconnect_enabled: remote_url.is_some() }
}

/// The id of the tray icon, under which a rebuilt tray replaces the old one.
pub fn tray_icon_id() -> (r: &'static str)
    ensures
        r@ == "main-tray"@,
{
    "main-tray"
}

/// The tray icon's tooltip.
pub fn tray_tooltip() -> (r: &'static str)
    ensures
        r@ == "OmniRoute"@,
{
    "OmniRoute"
}

/// An entry of a menu.
pub enum MenuNode {
    /// A menu item with its id, its label and whether it can be chosen.
    Item { id: String, label: String, enabled: bool },
    /// A separator line.
    Separator,
}

/// A top-level entry of the tray menu.
pub enum TrayItem {
    /// An entry of the menu itself.
    Node(MenuNode),
    /// A submenu with its label, whether it opens, and its entries.
    Submenu { label: String, enabled: bool, items: Vec<MenuNode> },
}

/// `n` is the item `id` labelled `label`, enabled when `enabled`.
pub open spec fn is_item(n: MenuNode, id: Seq<char>, label: Seq<char>, enabled: bool) -> bool {
    match n {
        MenuNode::Item { id: i, label: l, enabled: e } => i@ == id && l@ == label && e == enabled,
        MenuNode::Separator => false,
    }
}

/// `t` is the top-level item `id` labelled `label`, enabled when `enabled`.
pub open spec fn is_top_item(t: TrayItem, id: Seq<char>, label: Seq<char>, enabled: bool) -> bool {
    match t {
        TrayItem::Node(n) => is_item(n, id, label, enabled),
        TrayItem::Submenu { .. } => false,
    }
}

/// `t` is a top-level separator.
pub open spec fn is_top_separator(t: TrayItem) -> bool {
    t == TrayItem::Node(MenuNode::Separator)
}

/// The "Server Port" submenu: the current port (disabled), a separator,
/// then the ports 20128, 3000 and 8080 to switch to.
pub open spec fn is_port_submenu(t: TrayItem, port: u16) -> bool {
    match t {
        TrayItem::Submenu { label, enabled, items } => {
            &&& label@ == "Server Port"@
            &&& enabled
            &&& items@.len() == 5
            &&& is_item(items@[0], "port_current"@, "Port: "@ + decimal_spec(port as nat), false)
            &&& items@[1] == MenuNode::Separator
            &&& is_item(items@[2], "port_20128"@, "20128"@, true)
            &&& is_item(items@[3], "port_3000"@, "3000"@, true)
            &&& is_item(items@[4], "port_8080"@, "8080"@, true)
        },
        TrayItem::Node(_) => false,
    }
}

/// The "Remote Server" submenu: the connection label (disabled), a
/// separator, "Connect to Remote Server…", and "Disconnect (use Local
/// Server)", enabled only when connected.
pub open spec fn is_remote_submenu(t: TrayItem, remote_url: Option<Seq<char>>) -> bool {
    match t {
        TrayItem::Submenu { label, enabled, items } => {
            &&& label@ == "Remote Server"@
            &&& enabled
            &&& items@.len() == 4
            &&& is_item(items@[0], "remote_label"@, remote_label_spec(remote_url), false)
            &&& items@[1] == MenuNode::Separator
            &&& is_item(items@[2], "remote_connect"@, "Connect to Remote Server…"@, true)
            &&& is_item(items@[3], "remote_disconnect"@, "Disconnect (use Local Server)"@, remote_url is Some)
        },
        TrayItem::Node(_) => false,
    }
}

fn item(id: &str, label: &str, enabled: bool) -> (r: MenuNode)
    ensures
        is_item(r, id@, label@, enabled),
{
    MenuNode::Item { id: id.to_owned(), label: label.to_owned(), enabled }
}

/// The whole tray menu for the given port and remote server, in order:
/// Open OmniRoute, Open Dashboard, a separator, the "Server Port" submenu,
/// the "Remote Server" submenu, a separator, Check for Updates, a
/// separator, Quit OmniRoute.
pub fn tray_items(port: u16, remote_url: Option<&str>) -> (r: Vec<TrayItem>)
    ensures
        r@.len() == 9,
        is_top_item(r@[0], "open"@, "Open OmniRoute"@, true),
        is_top_item(r@[1], "open_dashboard"@, "Open Dashboard"@, true),
        is_top_separator(r@[2]),
        is_port_submenu(r@[3], port),
        is_remote_submenu(r@[4], opt_str_view(remote_url)),
        is_top_separator(r@[5]),
        is_top_item(r@[6], "check_updates"@, "Check for Updates"@, true),
        is_top_separator(r@[7]),
        is_top_item(r@[8], "quit"@, "Quit OmniRoute"@, true),
{
    let labels = tray_menu(port, remote_url);
    let mut port_items: Vec<MenuNode> = Vec::new();
    port_items.push(item("port_current", labels.port_label.as_str(), false));
    port_items.push(MenuNode::Separator);
    port_items.push(item("port_20128", "20128", true));
    port_items.push(item("port_3000", "3000", true));
    port_items.push(item("port_8080", "8080", true));
    let mut remote_items: Vec<MenuNode> = Vec::new();
    remote_items.push(item("remote_label", labels.remote_label.as_str(), false));
    remote_items.push(MenuNode::Separator);
    remote_items.push(item("remote_connect", "Connect to Remote Server…", true));
    remote_items.push(item("remote_disconnect", "Disconnect (use Local Server)", labels.disconnect_enabled));
    let mut r: Vec<TrayItem> = Vec::new();
    r.push(TrayItem::Node(item("open", "Open OmniRoute", true)));
    r.push(TrayItem::Node(item("open_dashboard", "Open Dashboard", true)));
    r.push(TrayItem::Node(MenuNode::Separator));
    r.push(TrayItem::Submenu { label: "Server Port".to_owned(), enabled: true, items: port_items });
    r.push(TrayItem::Submenu { label: "Remote Server".to_owned(), enabled: true, items: remote_items });
    r.push(TrayItem::Node(MenuNode::Separator));
    r.push(TrayItem::Node(item("check_updates", "Check for Updates", true)));
    r.push(TrayItem::Node(MenuNode::Separator));
    r.push(TrayItem::Node(item("quit", "Quit OmniRoute", true)));
    r
}

/// What a tray menu entry does.
pub enum TrayAction {
    /// Show and focus the main window.
    Open,
    /// Open the dashboard in the browser.
    OpenDashboard,
    /// Restart the embedded server on this port.
    ChangePort(u16),
    /// Show the remote-server prompt.
    ConnectRemote,
    /// Go back to the embedded server.
    DisconnectRemote,
    /// Check for updates.
    CheckUpdates,
    /// Mark the app as quitting and exit.
    Quit,
    /// An unknown entry: nothing.
    Ignore,
}

/// The action of the menu entry with this id.
pub fn tray_action(id: &str) -> (r: TrayAction)
    ensures
        id@ == "open"@ ==> r is Open,
        id@ == "open_dashboard"@ ==> r is OpenDashboard,
        id@ == "port_20128"@ ==> r == TrayAction::ChangePort(20128),
        id@ == "port_3000"@ ==> r == TrayAction::ChangePort(3000),
        id@ == "port_8080"@ ==> r == TrayAction::ChangePort(8080),
        id@ == "remote_connect"@ ==> r is ConnectRemote,
        id@ == "remote_disconnect"@ ==> r is DisconnectRemote,
        id@ == "check_updates"@ ==> r is CheckUpdates,
        id@ == "quit"@ ==> r is Quit,
        !(id@ == "open"@ || id@ == "open_dashboard"@ || id@ == "port_20128"@ || id@ == "port_3000"@
            || id@ == "port_8080"@ || id@ == "remote_connect"@ || id@ == "remote_disconnect"@
            || id@ == "check_updates"@ || id@ == "quit"@) ==> r is Ignore,
{
    proof {
        reveal_strlit("open");
        reveal_strlit("open_dashboard");
        reveal_strlit("port_20128");
        reveal_strlit("port_3000");
        reveal_strlit("port_8080");
        reveal_strlit("remote_connect");
        reveal_strlit("remote_disconnect");
        reveal_strlit("check_updates");
        reveal_strlit("quit");
        assert("open"@.len() == 4);
        assert("open_dashboard"@.len() == 14);
        assert("port_20128"@.len() == 10);
        assert("port_3000"@.len() == 9);
        assert("port_8080"@.len() == 9);
        assert("remote_connect"@.len() == 14);
        assert("remote_disconnect"@.len() == 17);
        assert("check_updates"@.len() == 13);
        assert("quit"@.len() == 4);
        assert("open"@[0] != "quit"@[0]);
        assert("open_dashboard"@[0] != "remote_connect"@[0]);
        assert("port_3000"@[5] != "port_8080"@[5]);
    }
    if str_eq(id, "open") {
        TrayAction::Open
    } else if str_eq(id, "open_dashboard") {
        TrayAction::OpenDashboard
    } else if str_eq(id, "port_20128") {
        TrayAction::ChangePort(20128)
    } else if str_eq(id, "port_3000") {
        TrayAction::ChangePort(3000)
    } else if str_eq(id, "port_8080") {
        TrayAction::ChangePort(8080)
    } else if str_eq(id, "remote_connect") {
        TrayAction::ConnectRemote
    } else if str_eq(id, "remote_disconnect") {
        TrayAction::DisconnectRemote
    } else if str_eq(id, "check_updates") {
        TrayAction::CheckUpdates
    } else if str_eq(id, "quit") {
        TrayAction::Quit
    } else {
        TrayAction::Ignore
    }
}

/// The dashboard URL: the remote server's, else the embedded server's.
pub fn dashboard_url(remote_url: Option<&str>, port: u16) -> (r: String)
    ensures
        r@ == match opt_str_view(remote_url) {
            Some(u) => u,
            None => local_url_spec(port),
        },
{
    match remote_url {
        Some(u) => u.to_owned(),
        None => local_server_url(port),
    }
}

} // verus!
