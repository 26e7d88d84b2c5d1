//! The tray menu: what a click on one of its items does.

use vstd::prelude::*;

verus! {

/// The item of the tray menu that was clicked.
#[derive(Clone, Copy, PartialEq, Eq, Debug)]
pub enum MenuItemKind {
    /// The item that turns the sound off and on.
    Toggle,
    /// The item that ends the application.
    Quit,
    /// Any other item.
    Other,
}

/// What the application does after a click in the tray menu.
pub enum TrayCommand {
    /// Nothing.
    Nothing,
    /// Leave the message loop.
    Quit,
    /// Turn the sound on or off, relabel the toggle item and change the
    /// tooltip.
    SetAudio {
        enabled: bool,
        item_text: String,
        tooltip: String,
    },
}

/// The text of the toggle item while the sound is on.
pub open spec fn label_when_enabled() -> Seq<char> {
    "Disable"@
}

/// The text of the toggle item while the sound is off.
pub open spec fn label_when_disabled() -> Seq<char> {
    "Enable"@
}

/// The tooltip while the sound is on, after it was turned back on.
pub open spec fn tooltip_when_enabled() -> Seq<char> {
    "Simple-Jingle - Listening"@
}

/// The tooltip while the sound is off.
pub open spec fn tooltip_when_disabled() -> Seq<char> {
    "Simple-Jingle - Disabled"@
}

/// The tooltip when the application starts.
pub open spec fn initial_tooltip() -> Seq<char> {
    "Simple-Jingle - Listening for trigger words"@
}

/// What the tray shows and does: whether the sound is on, the text of the
/// toggle item and the tooltip.
pub struct TrayState {
    pub enabled: bool,
    pub item_text: Seq<char>,
    pub tooltip: Seq<char>,
}

/// The tray when the application starts: sound on.
pub open spec fn startup_state() -> TrayState {
    TrayState { enabled: true, item_text: label_when_enabled(), tooltip: initial_tooltip() }
}

/// The tray after a click on the toggle item while the sound is on or off.
pub open spec fn after_toggle(enabled: bool) -> TrayState {
    if enabled {
        TrayState {
            enabled: false,
            item_text: label_when_disabled(),
            tooltip: tooltip_when_disabled(),
        }
    } else {
        TrayState { enabled: true, item_text: label_when_enabled(), tooltip: tooltip_when_enabled() }
    }
}

/// The tray after `k` clicks on the toggle item.
pub open spec fn after_toggles(k: nat) -> TrayState
    decreases k,
{
    if k == 0 {
        startup_state()
    } else {
        after_toggle(after_toggles((k - 1) as nat).enabled)
    }
}

/// Clicks on the toggle item alternate the sound: after `k` clicks it is on
/// exactly when `k` is even, and after at least one click the item offers
/// the opposite action and the tooltip tells the state. At start the sound
/// is on, the item reads "Disable" and the tooltip says the application
/// listens for trigger words; after an odd number of clicks the item reads
/// "Enable" and the tooltip says "Disabled", after an even number "Disable"
/// and "Listening".
pub proof fn law_toggle_alternates(k: nat)
    ensures
        k == 0 ==> after_toggles(k) == (TrayState {
            enabled: true,
            item_text: "Disable"@,
            tooltip: "Simple-Jingle - Listening for trigger words"@,
        }),
        k >= 1 ==> after_toggles(k) == (if k % 2 == 1 {
            TrayState { enabled: false, item_text: "Enable"@, tooltip: "Simple-Jingle - Disabled"@ }
        } else {
            TrayState { enabled: true, item_text: "Disable"@, tooltip: "Simple-Jingle - Listening"@ }
        }),
        after_toggles(k).enabled == (k % 2 == 0),
        k >= 1 ==> after_toggles(k).item_text == (if after_toggles(k).enabled {
            label_when_enabled()
        } else {
            label_when_disabled()
        }),
        k >= 1 ==> after_toggles(k).tooltip == (if after_toggles(k).enabled {
            tooltip_when_enabled()
        } else {
            tooltip_when_disabled()
        }),
    decreases k,
{
    if k > 0 {
        law_toggle_alternates((k - 1) as nat);
    }
}

/// The tooltip when the application starts.
pub fn startup_tooltip() -> (r: String)
    ensures
        r@ == startup_state().tooltip,
{
    "Simple-Jingle - Listening for trigger words".to_owned()
}

/// The text of the toggle item when the application starts, with the sound
/// on.
pub fn startup_toggle_label() -> (r: String)
    ensures
        r@ == startup_state().item_text,
{
    "Disable".to_owned()
}

/// The command for a click on a menu item while the sound is on or off:
/// the toggle item flips the sound and relabels itself, the quit item ends
/// the application, other items do nothing.
pub fn on_menu_click(item: MenuItemKind, audio_enabled: bool) -> (r: TrayCommand)
    ensures
        item == MenuItemKind::Quit ==> r is Quit,
        item == MenuItemKind::Other ==> r is Nothing,
        item == MenuItemKind::Toggle ==> (r matches TrayCommand::SetAudio {
            enabled,
            item_text,
            tooltip,
        } && (TrayState { enabled, item_text: item_text@, tooltip: tooltip@ }) == after_toggle(
            audio_enabled,
        )),
{
    match item {
        MenuItemKind::Toggle => {
            if audio_enabled {
                TrayCommand::SetAudio {
                    enabled: false,
                    item_text: "Enable".to_owned(),
                    tooltip: "Simple-Jingle - Disabled".to_owned(),
                }
            } else {
                TrayCommand::SetAudio {
                    enabled: true,
                    item_text: "Disable".to_owned(),
                    tooltip: "Simple-Jingle - Listening".to_owned(),
                }
            }
        },
        MenuItemKind::Quit => TrayCommand::Quit,
        MenuItemKind::Other => TrayCommand::Nothing,
    }
}

} // verus!
