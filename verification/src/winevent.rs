//! Which window events the WinEvent listener acts on.

use vstd::prelude::*;

verus! {

/// Event and object identifiers, as Win32 defines them.
pub const EVENT_SYSTEM_FOREGROUND: u32 = 0x0003;
pub const EVENT_OBJECT_DESTROY: u32 = 0x8001;
pub const EVENT_OBJECT_FOCUS: u32 = 0x8005;
pub const OBJID_WINDOW: i32 = 0;
pub const CHILDID_SELF: i32 = 0;

/// What a window event means to the program.
#[derive(Debug, PartialEq, Eq, Clone, Copy)]
pub enum WinEvent {
    /// A window came to the foreground (see `App::on_foreground`), unless it
    /// belongs to the notification area.
    Foreground,
    /// A control took the focus (see `App::on_focus`).
    Focus,
    /// A window was destroyed (see `App::on_destroy`).
    Destroy,
    /// Nothing to do.
    Other,
}

/// What a window event means, by its identifiers.
pub open spec fn win_event_spec(event: u32, id_object: i32, id_child: i32) -> WinEvent {
    if event == EVENT_SYSTEM_FOREGROUND && id_object == OBJID_WINDOW {
        WinEvent::Foreground
    } else if event == EVENT_OBJECT_FOCUS {
        WinEvent::Focus
    } else if event == EVENT_OBJECT_DESTROY && id_object == OBJID_WINDOW && id_child
        == CHILDID_SELF {
        WinEvent::Destroy
    } else {
        WinEvent::Other
    }
}

/// Sort a window event by its identifiers. Foreground changes and
/// destruction count only when they concern a window itself rather than an
/// object inside it.
pub fn classify_win_event(event: u32, id_object: i32, id_child: i32) -> (e: WinEvent)
    ensures
        e == win_event_spec(event, id_object, id_child),
        e == (if event == EVENT_SYSTEM_FOREGROUND && id_object == OBJID_WINDOW {
            WinEvent::Foreground
        } else if event == EVENT_OBJECT_FOCUS {
            WinEvent::Focus
        } else if event == EVENT_OBJECT_DESTROY && id_object == OBJID_WINDOW && id_child
            == CHILDID_SELF {
            WinEvent::Destroy
        } else {
            WinEvent::Other
        }),
{
    if event == EVENT_SYSTEM_FOREGROUND && id_object == OBJID_WINDOW {
        WinEvent::Foreground
    } else if event == EVENT_OBJECT_FOCUS {
        WinEvent::Focus
    } else if event == EVENT_OBJECT_DESTROY && id_object == OBJID_WINDOW && id_child
        == CHILDID_SELF {
        WinEvent::Destroy
    } else {
        WinEvent::Other
    }
}

/// A window coming to the foreground (`EVENT_SYSTEM_FOREGROUND`, 3) retargets
/// only when the event names the window itself (`OBJID_WINDOW`, 0); every
/// focus event (`EVENT_OBJECT_FOCUS`, 0x8005) is looked at; a destruction
/// (`EVENT_OBJECT_DESTROY`, 0x8001) counts only for the window itself, not for
/// an object inside it; every other event is ignored.
pub proof fn law_window_events(event: u32, id_object: i32, id_child: i32)
    ensures
        win_event_spec(event, id_object, id_child) == WinEvent::Foreground <==> (event == 3
            && id_object == 0),
        win_event_spec(event, id_object, id_child) == WinEvent::Focus <==> event == 0x8005,
        win_event_spec(event, id_object, id_child) == WinEvent::Destroy <==> (event == 0x8001
            && id_object == 0 && id_child == 0),
{
}

} // verus!
