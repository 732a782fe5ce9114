//! The keystrokes that carry a replacement to the target window.

use vstd::prelude::*;

use crate::unicode::{encode_utf16, utf16_len, utf16_units};

verus! {

/// Stamped into `dwExtraInfo` of everything we inject so the keyboard hook can
/// recognise its own echo. More reliable than testing `LLKHF_INJECTED`, which
/// is also set by any other tool driving the keyboard.
pub const OKKHOR_MAGIC: usize = 0x4F4B_4B48;

/// `VK_BACK`, as Win32 defines it.
pub const VK_BACK: u16 = 0x08;
/// `KEYEVENTF_KEYUP`, as Win32 defines it.
pub const KEYEVENTF_KEYUP: u32 = 0x0002;
/// `KEYEVENTF_UNICODE`, as Win32 defines it.
pub const KEYEVENTF_UNICODE: u32 = 0x0004;

/// One keyboard event. The two kinds sent from here fill in opposite fields: a
/// virtual key carries no scan code, and a `KEYEVENTF_UNICODE` event carries a
/// UTF-16 unit in `scan` and no virtual key.
#[derive(Debug, PartialEq, Eq, Clone, Copy)]
pub struct Keystroke {
    pub vk: u16,
    pub scan: u16,
    pub flags: u32,
}

/// Press and release of Backspace.
pub open spec fn backspace_strokes() -> Seq<Keystroke> {
    seq![
        Keystroke { vk: VK_BACK, scan: 0, flags: 0 },
        Keystroke { vk: VK_BACK, scan: 0, flags: KEYEVENTF_KEYUP },
    ]
}

/// Press and release of one UTF-16 code unit.
pub open spec fn unit_strokes(unit: u16) -> Seq<Keystroke> {
    seq![
        Keystroke { vk: 0, scan: unit, flags: KEYEVENTF_UNICODE },
        Keystroke { vk: 0, scan: unit, flags: KEYEVENTF_UNICODE | KEYEVENTF_KEYUP },
    ]
}

/// `n` backspaces, each pressed and released.
pub open spec fn erase_strokes(n: nat) -> Seq<Keystroke>
    decreases n,
{
    if n == 0 {
        seq![]
    } else {
        erase_strokes((n - 1) as nat) + backspace_strokes()
    }
}

/// Each unit typed in turn.
pub open spec fn type_strokes(units: Seq<u16>) -> Seq<Keystroke>
    decreases units.len(),
{
    if units.len() == 0 {
        seq![]
    } else {
        type_strokes(units.drop_last()) + unit_strokes(units.last())
    }
}

/// Erase `backspaces` units, then type `text`: the events to send, in order.
///
/// The application sends them in a single `SendInput` call so the whole
/// replacement enters the target's input queue atomically — a competing
/// keystroke can never land between the erase and the retype. An empty list
/// means there is nothing to send.
pub fn replacement_keystrokes(backspaces: usize, text: &str) -> (events: Vec<Keystroke>)
    requires
        2 * backspaces + 2 * utf16_len(text@) <= usize::MAX,
    ensures
        events@ == erase_strokes(backspaces as nat) + type_strokes(encode_utf16(text@)),
{
    let units = utf16_units(text);
    let mut events: Vec<Keystroke> = Vec::with_capacity(backspaces * 2 + units.len() * 2);
    let mut i: usize = 0;
    while i < backspaces
        invariant
            i <= backspaces,
            events@ == erase_strokes(i as nat),
        decreases backspaces - i,
    {
        events.push(Keystroke { vk: VK_BACK, scan: 0, flags: 0 });
        events.push(Keystroke { vk: VK_BACK, scan: 0, flags: KEYEVENTF_KEYUP });
        i = i + 1;
        assert(events@ =~= erase_strokes(i as nat));
    }
    let ghost erased = events@;
    let mut j: usize = 0;
    while j < units.len()
        invariant
            j <= units@.len(),
            events@ == erased + type_strokes(units@.take(j as int)),
        decreases units@.len() - j,
    {
        let unit = units[j];
        events.push(Keystroke { vk: 0, scan: unit, flags: KEYEVENTF_UNICODE });
        events.push(Keystroke { vk: 0, scan: unit, flags: KEYEVENTF_UNICODE | KEYEVENTF_KEYUP });
        proof {
            let next = units@.take(j + 1);
            assert(next.drop_last() =~= units@.take(j as int));
            assert(next.last() == unit);
        }
        j = j + 1;
        assert(events@ =~= erased + type_strokes(units@.take(j as int)));
    }
    assert(units@.take(j as int) =~= units@);
    events
}


/// The erasing part: `n` presses of Backspace, each followed by its release.
proof fn lemma_erase_strokes(n: nat)
    ensures
        erase_strokes(n).len() == 2 * n,
        forall|i: int| 0 <= i < n ==> (#[trigger] erase_strokes(n)[2 * i]) == (Keystroke {
            vk: 0x08,
            scan: 0,
            flags: 0,
        }) && erase_strokes(n)[2 * i + 1] == (Keystroke { vk: 0x08, scan: 0, flags: 2 }),
    decreases n,
{
    if n > 0 {
        lemma_erase_strokes((n - 1) as nat);
        let prev = erase_strokes((n - 1) as nat);
        assert forall|i: int| 0 <= i < n implies (#[trigger] erase_strokes(n)[2 * i]) == (
        Keystroke { vk: 0x08, scan: 0, flags: 0 }) && erase_strokes(n)[2 * i + 1] == (Keystroke {
            vk: 0x08,
            scan: 0,
            flags: 2,
        }) by {
            if i < n - 1 {
                assert(erase_strokes(n)[2 * i] == prev[2 * i]);
                assert(erase_strokes(n)[2 * i + 1] == prev[2 * i + 1]);
            }
        }
    }
}

/// The typing part: each unit pressed and then released, in order.
proof fn lemma_type_strokes(units: Seq<u16>)
    ensures
        type_strokes(units).len() == 2 * units.len(),
        forall|i: int|
            0 <= i < units.len() ==> (#[trigger] type_strokes(units)[2 * i]) == (Keystroke {
                vk: 0,
                scan: units[i],
                flags: 4,
            }) && type_strokes(units)[2 * i + 1] == (Keystroke { vk: 0, scan: units[i], flags: 6 }),
    decreases units.len(),
{
    if units.len() > 0 {
        let rest = units.drop_last();
        lemma_type_strokes(rest);
        let prev = type_strokes(rest);
        assert((4u32 | 2u32) == 6u32) by (bit_vector);
        assert(KEYEVENTF_UNICODE | KEYEVENTF_KEYUP == 6u32);
        let last = unit_strokes(units.last());
        assert(type_strokes(units) == prev + last);
        assert(last[0] == (Keystroke { vk: 0, scan: units.last(), flags: 4 }));
        assert(last[1] == (Keystroke { vk: 0, scan: units.last(), flags: 6 }));
        assert forall|i: int| 0 <= i < units.len() implies (#[trigger] type_strokes(units)[2 * i])
            == (Keystroke { vk: 0, scan: units[i], flags: 4 }) && type_strokes(units)[2 * i + 1]
            == (Keystroke { vk: 0, scan: units[i], flags: 6 }) by {
            if i < units.len() - 1 {
                assert(type_strokes(units)[2 * i] == prev[2 * i]);
                assert(type_strokes(units)[2 * i + 1] == prev[2 * i + 1]);
                assert(rest[i] == units[i]);
            } else {
                assert(2 * i == prev.len());
                assert(units.last() == units[i]);
                assert(type_strokes(units)[2 * i] == last[0]);
                assert(type_strokes(units)[2 * i + 1] == last[1]);
            }
        }
    }
}

/// What a replacement sends, event by event: first `backspaces` presses of
/// Backspace (`VK_BACK`, no flags), each followed by its release
/// (`KEYEVENTF_KEYUP`); then every UTF-16 unit of `text`, in order, pressed
/// (`KEYEVENTF_UNICODE`, the unit as scan code, no virtual key) and released
/// (`KEYEVENTF_UNICODE | KEYEVENTF_KEYUP`). Nothing else is sent.
pub proof fn law_replacement_keystrokes_by_index(backspaces: nat, text: Seq<char>)
    ensures
        ({
            let units = encode_utf16(text);
            let events = erase_strokes(backspaces) + type_strokes(units);
            &&& events.len() == 2 * backspaces + 2 * utf16_len(text)
            &&& forall|i: int|
                0 <= i < backspaces ==> (#[trigger] events[2 * i]) == (Keystroke {
                    vk: 0x08,
                    scan: 0,
                    flags: 0,
                }) && events[2 * i + 1] == (Keystroke { vk: 0x08, scan: 0, flags: 2 })
            &&& forall|i: int|
                0 <= i < units.len() ==> (#[trigger] events[2 * backspaces + 2 * i]) == (
                Keystroke { vk: 0, scan: units[i], flags: 4 }) && events[2 * backspaces + 2 * i
                    + 1] == (Keystroke { vk: 0, scan: units[i], flags: 6 })
        }),
{
    let units = encode_utf16(text);
    lemma_erase_strokes(backspaces);
    lemma_type_strokes(units);
    let e = erase_strokes(backspaces);
    let t = type_strokes(units);
    let events = e + t;
    assert forall|i: int| 0 <= i < backspaces implies (#[trigger] events[2 * i]) == (Keystroke {
        vk: 0x08,
        scan: 0,
        flags: 0,
    }) && events[2 * i + 1] == (Keystroke { vk: 0x08, scan: 0, flags: 2 }) by {
        assert(events[2 * i] == e[2 * i]);
        assert(e[2 * i] == e[2 * i]);
    }
    assert forall|i: int| 0 <= i < units.len() implies (#[trigger] events[2 * backspaces + 2 * i])
        == (Keystroke { vk: 0, scan: units[i], flags: 4 }) && events[2 * backspaces + 2 * i + 1]
        == (Keystroke { vk: 0, scan: units[i], flags: 6 }) by {
        assert(events[2 * backspaces + 2 * i] == t[2 * i]);
        assert(t[2 * i] == t[2 * i]);
    }
}

} // verus!
