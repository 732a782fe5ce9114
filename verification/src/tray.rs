//! What the notification-area icon shows.
//!
//! Drawing the icons and talking to the shell are GDI and Shell calls and live
//! in the application; the text and pixel work they need is here.

use vstd::prelude::*;

use crate::unicode::{encode_utf16, utf16_len, utf16_units};

verus! {

/// The tooltip for the target window: its application's file name and
/// whether transliteration is active there, or the program's own name when
/// the target's application is unknown.
pub open spec fn tray_label_spec(name: Seq<char>, active: bool) -> Seq<char> {
    if name.len() == 0 {
        "okkhor-gui"@
    } else {
        name + " — "@ + if active {
            "ACTIVE"@
        } else {
            "inactive"@
        }
    }
}

/// The tooltip text for the target window's application `name`.
pub fn tray_label(name: &str, active: bool) -> (label: String)
    ensures
        label@ == tray_label_spec(name@, active),
{
    if name.is_empty() {
        return String::from_str("okkhor-gui");
    }
    let mut label = String::from_str(name);
    label.append(" — ");
    if active {
        label.append("ACTIVE");
    } else {
        label.append("inactive");
    }
    label
}

/// A tooltip field after writing `text` into it: as many UTF-16 units as fit
/// before the terminating NUL, then the NUL; the rest is left as it was.
pub open spec fn tip_written(before: Seq<u16>, after: Seq<u16>, text: Seq<char>) -> bool {
    let units = encode_utf16(text);
    let n = if units.len() < before.len() - 1 {
        units.len() as int
    } else {
        before.len() - 1
    };
    &&& after.len() == before.len()
    &&& forall|i: int| 0 <= i < n ==> after[i] == units[i]
    &&& after[n] == 0
    &&& forall|i: int| n < i < before.len() ==> after[i] == before[i]
}

/// Write `text` into a fixed tooltip field as a NUL-terminated UTF-16
/// string, cut short if it does not fit.
pub fn write_tip(field: &mut [u16; 128], text: &str)
    ensures
        tip_written(old(field)@, final(field)@, text@),
{
    let units = utf16_units(text);
    let n = if units.len() < 127 {
        units.len()
    } else {
        127
    };
    let mut i: usize = 0;
    while i < n
        invariant
            n <= 127,
            n <= units@.len(),
            units@ == encode_utf16(text@),
            i <= n,
            forall|k: int| 0 <= k < i ==> field@[k] == units@[k],
            forall|k: int| i <= k < 128 ==> field@[k] == old(field)@[k],
        decreases n - i,
    {
        field[i] = units[i];
        i = i + 1;
    }
    field[n] = 0;
}

/// Whether byte `i` of a run of 4-byte pixels is an alpha byte.
pub open spec fn is_alpha_byte(i: int) -> bool {
    i % 4 == 3
}

/// Force every pixel of a run of 4-byte BGRA pixels opaque. GDI text and fill
/// leave the alpha channel at zero, which would make the whole image
/// transparent.
#[verifier::spinoff_prover]
#[verifier::rlimit(30)]
pub fn make_opaque(pixels: &mut Vec<u8>)
    ensures
        final(pixels)@.len() == old(pixels)@.len(),
        forall|i: int|
            0 <= i < old(pixels)@.len() ==> #[trigger] final(pixels)@[i] == if is_alpha_byte(i) {
                0xFFu8
            } else {
                old(pixels)@[i]
            },
{
    let n = pixels.len();
    let mut i: usize = 0;
    while i + 3 < n
        invariant
            pixels@.len() == n,
            n == old(pixels)@.len(),
            i % 4 == 0,
            forall|k: int|
                0 <= k < n ==> #[trigger] pixels@[k] == if is_alpha_byte(k) && k < i {
                    0xFFu8
                } else {
                    old(pixels)@[k]
                },
        decreases n - i,
    {
        pixels.set(i + 3, 0xFF);
        i = i + 4;
    }
}

/// Command identifiers of the tray menu's entries.
pub const CMD_TOGGLE: usize = 1;
pub const CMD_AUTOSTART: usize = 2;
pub const CMD_INSTALL: usize = 3;
pub const CMD_EXIT: usize = 4;

/// One line of the tray's context menu.
#[derive(Debug, PartialEq, Eq, Clone, Copy)]
pub enum MenuEntry {
    /// "Active for this window", checked when the target is active.
    Toggle { checked: bool },
    /// "Start with Windows", checked when autostart is on.
    Autostart { checked: bool },
    /// "Install on this PC".
    Install,
    /// "Exit".
    Exit,
    Separator,
}

/// The context menu: the mode toggle, autostart, an install entry only while
/// running from outside the install directory (straight out of a downloads
/// folder), and Exit, with separators between the groups.
pub open spec fn menu_spec(active: bool, autostart_on: bool, installed: bool) -> Seq<MenuEntry> {
    seq![
        MenuEntry::Toggle { checked: active },
        MenuEntry::Separator,
        MenuEntry::Autostart { checked: autostart_on },
    ] + if installed {
        Seq::<MenuEntry>::empty()
    } else {
        seq![MenuEntry::Separator, MenuEntry::Install]
    } + seq![MenuEntry::Separator, MenuEntry::Exit]
}

/// The entries of the context menu, in order.
pub fn menu_entries(active: bool, autostart_on: bool, installed: bool) -> (entries: Vec<MenuEntry>)
    ensures
        entries@ == menu_spec(active, autostart_on, installed),
{
    let mut entries: Vec<MenuEntry> = Vec::new();
    entries.push(MenuEntry::Toggle { checked: active });
    entries.push(MenuEntry::Separator);
    entries.push(MenuEntry::Autostart { checked: autostart_on });
    if !installed {
        entries.push(MenuEntry::Separator);
        entries.push(MenuEntry::Install);
    }
    entries.push(MenuEntry::Separator);
    entries.push(MenuEntry::Exit);
    assert(entries@ =~= menu_spec(active, autostart_on, installed));
    entries
}

/// The command identifier of a menu entry, or 0 for a separator.
pub open spec fn menu_command_id_spec(entry: MenuEntry) -> usize {
    match entry {
        MenuEntry::Toggle { .. } => CMD_TOGGLE,
        MenuEntry::Autostart { .. } => CMD_AUTOSTART,
        MenuEntry::Install => CMD_INSTALL,
        MenuEntry::Exit => CMD_EXIT,
        MenuEntry::Separator => 0,
    }
}

/// The command identifier of a menu entry, or 0 for a separator.
pub fn menu_command_id(entry: MenuEntry) -> (id: usize)
    ensures
        id == menu_command_id_spec(entry),
{
    match entry {
        MenuEntry::Toggle { .. } => CMD_TOGGLE,
        MenuEntry::Autostart { .. } => CMD_AUTOSTART,
        MenuEntry::Install => CMD_INSTALL,
        MenuEntry::Exit => CMD_EXIT,
        MenuEntry::Separator => 0,
    }
}

/// What choosing a menu command asks for.
#[derive(Debug, PartialEq, Eq, Clone, Copy)]
pub enum MenuChoice {
    /// Flip the mode of the target window.
    ToggleTarget,
    /// Turn autostart on if it is off, off if it is on.
    ToggleAutostart,
    /// Run the installer in a fresh process and quit, so it is free to
    /// overwrite the executable this one is running from.
    Install,
    /// Quit.
    Exit,
}

/// What the command the menu returned asks for; `None` when the menu was
/// dismissed or the identifier is unknown.
pub open spec fn menu_choice_spec(command: usize) -> Option<MenuChoice> {
    if command == CMD_TOGGLE {
        Some(MenuChoice::ToggleTarget)
    } else if command == CMD_AUTOSTART {
        Some(MenuChoice::ToggleAutostart)
    } else if command == CMD_INSTALL {
        Some(MenuChoice::Install)
    } else if command == CMD_EXIT {
        Some(MenuChoice::Exit)
    } else {
        None
    }
}

/// What the command the menu returned asks for; `None` when the menu was
/// dismissed or the identifier is unknown.
pub fn menu_choice(command: usize) -> (choice: Option<MenuChoice>)
    ensures
        choice == menu_choice_spec(command),
{
    if command == CMD_TOGGLE {
        Some(MenuChoice::ToggleTarget)
    } else if command == CMD_AUTOSTART {
        Some(MenuChoice::ToggleAutostart)
    } else if command == CMD_INSTALL {
        Some(MenuChoice::Install)
    } else if command == CMD_EXIT {
        Some(MenuChoice::Exit)
    } else {
        None
    }
}

/// What a menu entry offers to do; nothing for a separator.
pub open spec fn entry_choice(entry: MenuEntry) -> Option<MenuChoice> {
    match entry {
        MenuEntry::Toggle { .. } => Some(MenuChoice::ToggleTarget),
        MenuEntry::Autostart { .. } => Some(MenuChoice::ToggleAutostart),
        MenuEntry::Install => Some(MenuChoice::Install),
        MenuEntry::Exit => Some(MenuChoice::Exit),
        MenuEntry::Separator => None,
    }
}

/// Every entry of the menu, once chosen, asks for what it offers, and a
/// dismissed menu asks for nothing.
pub proof fn law_menu_commands_round_trip(entry: MenuEntry)
    ensures
        menu_choice_spec(menu_command_id_spec(entry)) == entry_choice(entry),
        menu_choice_spec(0) is None,
{
}

/// The tooltip names the target's application and ends with its mode,
/// `ACTIVE` or `inactive`; with no application known it is the program's own
/// name.
pub proof fn law_tray_label(name: Seq<char>, active: bool)
    ensures
        name.len() == 0 ==> tray_label_spec(name, active) == "okkhor-gui"@,
        name.len() > 0 ==> ({
            let label = tray_label_spec(name, active);
            &&& label.take(name.len() as int) == name
            &&& active ==> label.skip(label.len() - 6) == "ACTIVE"@
            &&& !active ==> label.skip(label.len() - 8) == "inactive"@
        }),
{
    if name.len() > 0 {
        let label = tray_label_spec(name, active);
        reveal_strlit("ACTIVE");
        reveal_strlit("inactive");
        assert(label.take(name.len() as int) =~= name);
        if active {
            assert(label.skip(label.len() - 6) =~= "ACTIVE"@);
        } else {
            assert(label.skip(label.len() - 8) =~= "inactive"@);
        }
    }
}

/// In a run of BGRA pixels the alpha channel is the fourth byte of each pixel.
pub proof fn law_alpha_is_the_fourth_byte(p: int, k: int)
    requires
        p >= 0,
        0 <= k < 4,
    ensures
        is_alpha_byte(4 * p + k) <==> k == 3,
{
}

/// The menu starts with the mode toggle, checked exactly when the target is
/// active, offers autostart checked exactly when it is on, offers to install
/// exactly when not running from the install directory, and ends with Exit.
pub proof fn law_menu_contents(active: bool, autostart_on: bool, installed: bool)
    ensures
        ({
            let m = menu_spec(active, autostart_on, installed);
            &&& m[0] == MenuEntry::Toggle { checked: active }
            &&& m.last() == MenuEntry::Exit
            &&& m.contains(MenuEntry::Autostart { checked: autostart_on })
            &&& !m.contains(MenuEntry::Autostart { checked: !autostart_on })
            &&& m.contains(MenuEntry::Install) <==> !installed
        }),
{
    let m = menu_spec(active, autostart_on, installed);
    assert(m[2] == MenuEntry::Autostart { checked: autostart_on });
    if !installed {
        assert(m[4] == MenuEntry::Install);
    }
    if m.contains(MenuEntry::Autostart { checked: !autostart_on }) {
        let k = choose|k: int| 0 <= k < m.len() && m[k] == MenuEntry::Autostart { checked: !autostart_on };
        assert(false);
    }
    if installed && m.contains(MenuEntry::Install) {
        let k = choose|k: int| 0 <= k < m.len() && m[k] == MenuEntry::Install;
        assert(false);
    }
}

/// The tooltip field holds the text as a NUL-terminated UTF-16 string: all of
/// it when it fits before the field's last unit, otherwise its first 127
/// units.
pub proof fn law_tip_holds_the_text(before: Seq<u16>, after: Seq<u16>, text: Seq<char>)
    requires
        before.len() == 128,
        tip_written(before, after, text),
    ensures
        after.len() == 128,
        utf16_len(text) < 128 ==> after.take(utf16_len(text) as int) == encode_utf16(text) && after[utf16_len(
            text,
        ) as int] == 0,
        utf16_len(text) >= 128 ==> after.take(127) == encode_utf16(text).take(127) && after[127]
            == 0,
{
    let u = encode_utf16(text);
    if u.len() < 128 {
        assert(after.take(u.len() as int) =~= u);
    } else {
        assert(after.take(127) =~= u.take(127));
    }
}

} // verus!
