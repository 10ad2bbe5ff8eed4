//! What the menu bar shows and how the windows behave.
use vstd::prelude::*;
use crate::text;
use crate::text::{number, same_str};
use crate::text_laws;

verus! {

broadcast use vstd::string::group_string_axioms;

/// The label of the main window.
pub const MAIN_LABEL: &'static str = "main";

/// The label of the panel under the menu bar.
pub const QUICK_PANEL_LABEL: &'static str = "quick-panel";

/// The menu entry that shows the main window.
pub const MENU_SHOW: &'static str = "show";

/// The menu entry that hides the main window.
pub const MENU_HIDE: &'static str = "hide";

/// The menu entry that starts the service.
pub const MENU_START_SERVICE: &'static str = "start_service";

/// The menu entry that stops the service.
pub const MENU_STOP_SERVICE: &'static str = "stop_service";

/// The text over the icon: the number of clients and of tunnels.
pub open spec fn tooltip(clients: nat, running: nat) -> Seq<char> {
    "Wormhole · "@ + text::decimal(clients) + " client(s), "@ + text::decimal(running)
        + " tunnel(s) running"@
}

/// The text beside the icon: the number of clients.
pub fn tray_title(clients: usize) -> (title: String)
    ensures
        title@ == text::decimal(clients as nat),
{
    number(clients as u64)
}

/// The text over the icon.
pub fn tray_tooltip(clients: usize, running: usize) -> (text: String)
    ensures
        text@ == tooltip(clients as nat, running as nat),
{
    let mut text = "Wormhole · ".to_string();
    let clients = number(clients as u64);
    let running = number(running as u64);
    text.append(clients.as_str());
    text.append(" client(s), ");
    text.append(running.as_str());
    text.append(" tunnel(s) running");
    text
}

/// The name of the event that tells of what was done with the service.
pub fn service_event(action: &str) -> (name: String)
    ensures
        name@ == "service:"@ + action@,
{
    let mut name = "service:".to_string();
    name.append(action);
    name
}

/// What a menu entry does.
#[derive(Debug, Clone, Copy, PartialEq, Eq, Structural)]
pub enum MenuCommand {
    Show,
    Hide,
    StartService,
    StopService,
}

/// The name of a menu entry.
pub open spec fn menu_name(command: MenuCommand) -> Seq<char> {
    match command {
        MenuCommand::Show => MENU_SHOW@,
        MenuCommand::Hide => MENU_HIDE@,
        MenuCommand::StartService => MENU_START_SERVICE@,
        MenuCommand::StopService => MENU_STOP_SERVICE@,
    }
}

/// What the menu entry with a name does; nothing where there is none.
pub fn menu_command(name: &str) -> (command: Option<MenuCommand>)
    ensures
        match command {
            Some(command) => name@ == menu_name(command),
            None => forall|command: MenuCommand| name@ != #[trigger] menu_name(command),
        },
{
    if same_str(name, MENU_SHOW) {
        Some(MenuCommand::Show)
    } else if same_str(name, MENU_HIDE) {
        Some(MenuCommand::Hide)
    } else if same_str(name, MENU_START_SERVICE) {
        Some(MenuCommand::StartService)
    } else if same_str(name, MENU_STOP_SERVICE) {
        Some(MenuCommand::StopService)
    } else {
        None
    }
}

/// No two menu entries share a name, so that each does one thing.
pub proof fn law_menu_names_differ(a: MenuCommand, b: MenuCommand)
    requires
        menu_name(a) == menu_name(b),
    ensures
        a == b,
{
    reveal_strlit("show");
    reveal_strlit("hide");
    reveal_strlit("start_service");
    reveal_strlit("stop_service");
    assert(MENU_SHOW@[0] == 's');
    assert(MENU_HIDE@[0] == 'h');
    assert(MENU_SHOW@.len() == 4);
    assert(MENU_START_SERVICE@.len() == 13);
    assert(MENU_STOP_SERVICE@.len() == 12);
}

/// What happens to a window.
#[derive(Debug, Clone, Copy, PartialEq, Eq, Structural)]
pub enum WindowChange {
    FocusLost,
    CloseRequested,
    Other,
}

/// What is done about it.
#[derive(Debug, Clone, Copy, PartialEq, Eq, Structural)]
pub struct WindowReaction {
    /// The window is not closed.
    pub prevent_close: bool,
    /// The window is hidden.
    pub hide: bool,
    /// The program leaves the dock.
    pub leave_dock: bool,
}

/// What is done about a change of the window with a label: the panel hides when
/// it loses the focus, and neither the panel nor the main window closes for good.
pub open spec fn reaction(label: Seq<char>, change: WindowChange) -> WindowReaction {
    let main = label == MAIN_LABEL@;
    let panel = label == QUICK_PANEL_LABEL@;
    match change {
        WindowChange::FocusLost => WindowReaction {
            prevent_close: false,
            hide: panel,
            leave_dock: false,
        },
        WindowChange::CloseRequested => WindowReaction {
            prevent_close: main || panel,
            hide: main || panel,
            leave_dock: main,
        },
        WindowChange::Other => WindowReaction {
            prevent_close: false,
            hide: false,
            leave_dock: false,
        },
    }
}

/// What is done about a change of a window.
pub fn window_reaction(label: &str, change: WindowChange) -> (result: WindowReaction)
    ensures
        result == reaction(label@, change),
{
    let main = same_str(label, MAIN_LABEL);
    let panel = same_str(label, QUICK_PANEL_LABEL);
    match change {
        WindowChange::FocusLost => WindowReaction {
            prevent_close: false,
            hide: panel,
            leave_dock: false,
        },
        WindowChange::CloseRequested => WindowReaction {
            prevent_close: main || panel,
            hide: main || panel,
            leave_dock: main,
        },
        WindowChange::Other => WindowReaction {
            prevent_close: false,
            hide: false,
            leave_dock: false,
        },
    }
}

/// Closing the main window hides it and does not close it, so that tunnels can go
/// on.
pub proof fn law_closing_hides(label: Seq<char>)
    ensures
        ({
            let done = reaction(label, WindowChange::CloseRequested);
            &&& done.prevent_close == done.hide
            &&& label == MAIN_LABEL@ ==> done.prevent_close && done.leave_dock
        }),
{
}

/// What a click on the icon does to the panel.
#[derive(Debug, Clone, Copy, PartialEq, Eq, Structural)]
pub enum PanelAction {
    Hide,
    /// Move the panel to its place and show it.
    Show,
    /// Make the panel, as there is none.
    Build,
}

/// What a click on the icon does, where the panel is there and visible or not, or
/// is not there.
pub fn toggle_quick_panel(visible: Option<bool>) -> (action: PanelAction)
    ensures
        action == match visible {
            Some(true) => PanelAction::Hide,
            Some(false) => PanelAction::Show,
            None => PanelAction::Build,
        },
{
    match visible {
        Some(true) => PanelAction::Hide,
        Some(false) => PanelAction::Show,
        None => PanelAction::Build,
    }
}

/// The part of a screen that windows can use.
#[derive(Debug, Clone, Copy, PartialEq, Eq, Structural)]
pub struct WorkArea {
    pub x: i32,
    pub y: i32,
    pub width: u32,
    pub height: u32,
}

/// A size as a signed number of the same bits.
pub open spec fn signed(size: u32) -> int {
    if size <= i32::MAX {
        size as int
    } else {
        size - 0x1_0000_0000
    }
}

/// A point lies in an area: on its left or upper edge, but not on the others.
pub open spec fn holds(area: WorkArea, x: int, y: int) -> bool {
    &&& area.x <= x < area.x + signed(area.width)
    &&& area.y <= y < area.y + signed(area.height)
}

fn signed_size(size: u32) -> (n: i64)
    ensures
        n == signed(size),
{
    if size <= 0x7fff_ffff {
        size as i64
    } else {
        size as i64 - 0x1_0000_0000
    }
}

/// The place of the first area that holds a point.
pub fn quick_panel_work_area(areas: &Vec<WorkArea>, x: i32, y: i32) -> (at: Option<usize>)
    ensures
        match at {
            Some(i) => {
                &&& i < areas@.len()
                &&& holds(areas@[i as int], x as int, y as int)
                &&& forall|j: int| 0 <= j < i ==> !holds(#[trigger] areas@[j], x as int, y as int)
            },
            None => forall|j: int|
                0 <= j < areas@.len() ==> !holds(#[trigger] areas@[j], x as int, y as int),
        },
{
    let mut i: usize = 0;
    while i < areas.len()
        invariant
            i <= areas@.len(),
            forall|j: int| 0 <= j < i ==> !holds(#[trigger] areas@[j], x as int, y as int),
        decreases areas.len() - i,
    {
        let area = areas[i];
        let right: i64 = area.x as i64 + signed_size(area.width);
        let bottom: i64 = area.y as i64 + signed_size(area.height);
        if x >= area.x && (x as i64) < right && y >= area.y && (y as i64) < bottom {
            return Some(i);
        }
        i = i + 1;
    }
    None
}

/// The text over the icon tells the number of clients first and that of tunnels
/// after it.
pub proof fn law_tooltip_tells_both_numbers(clients: nat, running: nat)
    ensures
        ({
            let shown = tooltip(clients, running);
            let rest = shown.skip(11);
            &&& shown.take(11) == "Wormhole · "@
            &&& text::first_word(rest) == text::decimal(clients)
            &&& text::digits_value(text::first_word(rest)) == clients
            &&& text::after_first_word(rest) == " client(s), "@ + text::decimal(running)
                + " tunnel(s) running"@
            &&& text::digits_value(text::first_word(text::after_first_word(rest).skip(12)))
                == running
        }),
{
    reveal_strlit("Wormhole · ");
    reveal_strlit(" client(s), ");
    reveal_strlit(" tunnel(s) running");
    let shown = tooltip(clients, running);
    let first = text::decimal(clients);
    let second = text::decimal(running);
    let middle = " client(s), "@ + second + " tunnel(s) running"@;
    let last = " tunnel(s) running"@;
    text_laws::lemma_decimal(clients);
    text_laws::lemma_decimal(running);
    text_laws::lemma_unspaced_decimal(clients);
    text_laws::lemma_unspaced_decimal(running);
    text_laws::lemma_first_word(first, middle);
    text_laws::lemma_first_word(second, last);
    assert(shown.take(11) =~= "Wormhole · "@);
    assert(shown.skip(11) =~= first + middle);
    assert(middle.skip(12) =~= second + last);
}

/// Each entry of the menu goes by its name, and does what the name says.
pub proof fn law_menu_entries(name: &str, command: Option<MenuCommand>)
    requires
        call_ensures(menu_command, (name,), command),
    ensures
        name@ == "show"@ ==> command == Some(MenuCommand::Show),
        name@ == "hide"@ ==> command == Some(MenuCommand::Hide),
        name@ == "start_service"@ ==> command == Some(MenuCommand::StartService),
        name@ == "stop_service"@ ==> command == Some(MenuCommand::StopService),
        name@ != "show"@ && name@ != "hide"@ && name@ != "start_service"@ && name@
            != "stop_service"@ ==> command is None,
{
    assert(menu_name(MenuCommand::Show) == "show"@);
    assert(menu_name(MenuCommand::Hide) == "hide"@);
    assert(menu_name(MenuCommand::StartService) == "start_service"@);
    assert(menu_name(MenuCommand::StopService) == "stop_service"@);
    if command is Some {
        let found = command->0;
        if name@ == "show"@ {
            law_menu_names_differ(found, MenuCommand::Show);
        }
        if name@ == "hide"@ {
            law_menu_names_differ(found, MenuCommand::Hide);
        }
        if name@ == "start_service"@ {
            law_menu_names_differ(found, MenuCommand::StartService);
        }
        if name@ == "stop_service"@ {
            law_menu_names_differ(found, MenuCommand::StopService);
        }
    }
}

/// The panel hides when it loses the focus, and nothing else does; the main window
/// and the panel hide instead of closing, and every other window closes. Only with
/// the main window does the program leave the dock.
pub proof fn law_windows(label: Seq<char>, change: WindowChange)
    ensures
        ({
            let done = reaction(label, change);
            let closing = change == WindowChange::CloseRequested;
            let main = label == "main"@;
            let panel = label == "quick-panel"@;
            &&& done.prevent_close <==> closing && (main || panel)
            &&& done.hide <==> (closing && (main || panel)) || (change == WindowChange::FocusLost
                && panel)
            &&& done.leave_dock <==> closing && main
        }),
{
}

/// A size counts as the number of the same bits with a sign: itself where it is
/// less than half of all, and otherwise as much less than nothing as it lacks to
/// all of them.
pub proof fn law_signed_sizes(size: u32)
    ensures
        -0x8000_0000 <= signed(size) < 0x8000_0000,
        signed(size) == size || signed(size) + 0x1_0000_0000 == size,
{
}

/// An area holds its own corner, where its sizes are positive and not too great,
/// and neither the point right of it nor the one below.
pub proof fn law_area_holds_its_corner(area: WorkArea)
    requires
        0 < area.width < 0x8000_0000,
        0 < area.height < 0x8000_0000,
    ensures
        holds(area, area.x as int, area.y as int),
        holds(area, area.x + area.width - 1, area.y + area.height - 1),
        !holds(area, area.x + area.width, area.y as int),
        !holds(area, area.x as int, area.y + area.height),
        !holds(area, area.x - 1, area.y as int),
        !holds(area, area.x as int, area.y - 1),
{
}

/// An area of ordinary size holds exactly the points from its corner on that are
/// less than its width and its height away.
pub proof fn law_area_holds_its_points(area: WorkArea, x: int, y: int)
    requires
        area.width < 0x8000_0000,
        area.height < 0x8000_0000,
    ensures
        holds(area, x, y) <==> 0 <= x - area.x < area.width && 0 <= y - area.y < area.height,
{
}

/// A click hides the panel where it is seen, shows it where it is there and not
/// seen, and else makes it.
pub proof fn law_click_toggles_the_panel(visible: Option<bool>, action: PanelAction)
    requires
        call_ensures(toggle_quick_panel, (visible,), action),
    ensures
        action == PanelAction::Hide <==> visible == Some(true),
        action == PanelAction::Show <==> visible == Some(false),
        action == PanelAction::Build <==> visible is None,
{
}

/// The number beside the icon is read back as the number of clients.
pub proof fn law_title_tells_the_clients(clients: usize, title: String)
    requires
        call_ensures(tray_title, (clients,), title),
    ensures
        text::all_digits(title@),
        text::digits_value(title@) == clients,
{
    text_laws::lemma_decimal(clients as nat);
}

} // verus!
