//! Program state and the decisions every callback takes against it.
//!
//! The callbacks themselves (hooks, WinEvent listener, window procedure) run
//! in the application on its single thread. Each of them reads what it needs
//! from Win32 and hands it to a method here, which decides what happens to the
//! state and what the callback has to send or report back.

use std::collections::HashMap;

use okkhor::parser::Parser;
use vstd::prelude::*;
use vstd::std_specs::iter::IteratorSpec;
use vstd::utf8::{encode_scalar, encode_utf8, is_ascii_chars};

use crate::bengali::{diff, law_replacement_rebuilds_new, replacement_spec, Replacement};
use crate::keyboard::{
    classify, classify_spec, is_shortcut, is_word_char, punctuation_spec, Action, Modifiers,
    VK_CAPITAL, VK_F11, VK_SHIFT,
};
use crate::phonetic::{convert, new_phonetic_parser, phonetic};
use crate::tray::{tray_label, tray_label_spec};
use crate::unicode::{
    chars_of, encode_utf16, lemma_encode_utf8_concat, lemma_encode_utf8_injective, lemma_encode_utf8_single,
    lemma_encode_utf8_split, lemma_prefix_end_is_boundary, str_equal, string_clear, string_push,
    utf16_len,
};

verus! {

broadcast use vstd::std_specs::hash::group_hash_axioms;

/// The romanised text typed so far and the Bangla currently showing for it.
pub struct Session {
    pub raw: String,
    pub emitted: String,
}

impl Default for Session {
    fn default() -> (s: Session)
        ensures
            s.raw@ == Seq::<char>::empty(),
            s.emitted@ == Seq::<char>::empty(),
    {
        Session { raw: String::new(), emitted: String::new() }
    }
}

impl Session {
    /// Forget the current word without touching the screen. Used whenever we
    /// lose track of where the caret is (focus change, mouse click, arrow
    /// key), so a desync can never propagate past one word.
    pub fn clear(&mut self)
        ensures
            final(self).raw@ == Seq::<char>::empty(),
            final(self).emitted@ == Seq::<char>::empty(),
    {
        string_clear(&mut self.raw);
        string_clear(&mut self.emitted);
    }
}

/// The state, as the contracts speak of it.
pub struct AppView {
    /// Per top-level window (keyed by its handle): is transliteration active?
    pub modes: Map<isize, bool>,
    /// The romanised word being typed.
    pub raw: Seq<char>,
    /// The Bangla on screen for it.
    pub emitted: Seq<char>,
    /// The window keystrokes are going to.
    pub target: isize,
    /// Full image path of the target's process.
    pub target_exe: Seq<char>,
    /// The application's own hidden window.
    pub msg_hwnd: isize,
    /// Whether the keyboard hook has to detect the toggle key itself.
    pub hotkeys_via_hook: bool,
    /// Keys whose key-down was swallowed, by virtual-key code.
    pub swallowed: Seq<bool>,
}

impl AppView {
    /// Whether transliteration is active for `hwnd`. Absent means inactive.
    pub open spec fn mode(self, hwnd: isize) -> bool {
        self.modes.contains_key(hwnd) && self.modes[hwnd]
    }

    /// The same state with the current word forgotten.
    pub open spec fn abandon(self) -> AppView {
        AppView { raw: Seq::empty(), emitted: Seq::empty(), ..self }
    }

    /// The same state aimed at another window.
    pub open spec fn aimed_at(self, hwnd: isize, exe: Seq<char>) -> AppView {
        AppView { target: hwnd, target_exe: exe, ..self }
    }

    /// The same state with other modes.
    pub open spec fn with_modes(self, modes: Map<isize, bool>) -> AppView {
        AppView { modes, ..self }
    }
}

/// `after` is `before` with the windows that `alive` reported gone dropped.
pub open spec fn pruned<F: Fn(isize) -> bool>(
    before: Map<isize, bool>,
    after: Map<isize, bool>,
    alive: F,
) -> bool {
    &&& forall|k: isize| #[trigger]
        after.contains_key(k) ==> before.contains_key(k) && after[k] == before[k]
            && alive.ensures((k,), true)
    &&& forall|k: isize| #[trigger]
        before.contains_key(k) && !after.contains_key(k) ==> alive.ensures((k,), false)
}

/// The modes after flipping the one of `hwnd`.
pub open spec fn toggled(modes: Map<isize, bool>, hwnd: isize) -> Map<isize, bool> {
    modes.insert(hwnd, !(modes.contains_key(hwnd) && modes[hwnd]))
}

/// What a key-down asks of the keyboard hook.
pub enum KeyResponse {
    /// The toggle key, caught in the hook because the hotkey could not be
    /// registered: post the toggle to the hidden window and swallow the key.
    ToggleHotkey,
    /// Let the key reach the application.
    Pass,
    /// Swallow the key and apply the replacement to the screen.
    Rewrite(Replacement),
}

/// A [`KeyResponse`] as the contracts speak of it.
pub enum KeyOutcome {
    ToggleHotkey,
    Pass,
    Rewrite(nat, Seq<char>),
}

impl KeyResponse {
    pub open spec fn outcome(&self) -> KeyOutcome {
        match self {
            KeyResponse::ToggleHotkey => KeyOutcome::ToggleHotkey,
            KeyResponse::Pass => KeyOutcome::Pass,
            KeyResponse::Rewrite(r) => KeyOutcome::Rewrite(r.backspaces as nat, r.text@),
        }
    }

    /// Whether the key must be kept from the application.
    pub fn swallows(&self) -> (b: bool)
        ensures
            b == !(self.outcome() is Pass),
    {
        match self {
            KeyResponse::Pass => false,
            _ => true,
        }
    }
}

/// Whether the key is the toggle key and the hook has to catch it.
pub open spec fn is_fallback_hotkey(pre: AppView, vk: u32) -> bool {
    pre.hotkeys_via_hook && vk == VK_F11
}

/// What a key-down does, from the state before it, the key, the foreground
/// window, the modifiers, and the image path resolved for the foreground
/// window if it is not the current target.
pub open spec fn key_down_spec(
    pre: AppView,
    vk: u32,
    foreground: isize,
    mods: Modifiers,
    exe: Seq<char>,
) -> (AppView, KeyOutcome) {
    if is_fallback_hotkey(pre, vk) {
        (AppView { swallowed: pre.swallowed.update(vk as int, true), ..pre }, KeyOutcome::ToggleHotkey)
    } else {
        // Keep the cached target honest even if the WinEvent hook missed a
        // transition; a stale target would mean typing into the wrong buffer.
        let s = if foreground != pre.target {
            pre.abandon().aimed_at(foreground, exe)
        } else {
            pre
        };
        if !s.mode(foreground) || mods.ctrl || mods.alt || mods.lwin || mods.rwin {
            (s.abandon(), KeyOutcome::Pass)
        } else {
            match classify_spec(vk, mods.shift, mods.caps_lock) {
                Action::Word(c) => {
                    let raw = s.raw.push(c);
                    let out = phonetic(raw);
                    let (backspaces, text) = replacement_spec(s.emitted, out);
                    (
                        AppView {
                            raw,
                            emitted: out,
                            swallowed: s.swallowed.update(vk as int, true),
                            ..s
                        },
                        KeyOutcome::Rewrite(backspaces, text),
                    )
                },
                Action::Transparent => (s, KeyOutcome::Pass),
                Action::Break => (s.abandon(), KeyOutcome::Pass),
            }
        }
    }
}

/// What a key-up does: it is swallowed exactly when its key-down was, and the
/// record of that is cleared.
pub open spec fn key_up_spec(pre: AppView, vk: u32) -> (AppView, bool) {
    (AppView { swallowed: pre.swallowed.update(vk as int, false), ..pre }, pre.swallowed[vk as int])
}

/// One call on the program state, as the contracts speak of it: each `&mut`
/// method of [`App`] ensures that its new view is [`apply`] of the matching
/// call. Where a method's result depends on a callback (which windows still
/// exist, which program a window belongs to), the call carries what came back.
pub enum Call {
    SetMsgHwnd { hwnd: isize },
    SetHotkeysViaHook { via_hook: bool },
    AbandonWord,
    /// The modes left after dropping windows that no longer exist.
    Prune { modes: Map<isize, bool> },
    /// The modes after the flip and the pruning.
    Toggle { modes: Map<isize, bool> },
    Retarget { hwnd: isize, exe: Seq<char> },
    Render,
    KeyDown { vk: u32, foreground: isize, mods: Modifiers, exe: Seq<char> },
    KeyUp { vk: u32 },
    Foreground { hwnd: isize, exe: Seq<char> },
    Focus { hwnd: isize, root: isize },
    Destroy { hwnd: isize },
    ToggleForeground { hwnd: isize, exe: Seq<char>, modes: Map<isize, bool> },
}

/// The state after one call.
pub open spec fn apply(pre: AppView, call: Call) -> AppView {
    match call {
        Call::SetMsgHwnd { hwnd } => AppView { msg_hwnd: hwnd, ..pre },
        Call::SetHotkeysViaHook { via_hook } => AppView { hotkeys_via_hook: via_hook, ..pre },
        Call::AbandonWord => pre.abandon(),
        Call::Prune { modes } => pre.with_modes(modes),
        Call::Toggle { modes } => pre.abandon().with_modes(modes),
        Call::Retarget { hwnd, exe } => pre.aimed_at(hwnd, exe),
        Call::Render => AppView { emitted: phonetic(pre.raw), ..pre },
        Call::KeyDown { vk, foreground, mods, exe } => key_down_spec(
            pre,
            vk,
            foreground,
            mods,
            exe,
        ).0,
        Call::KeyUp { vk } => key_up_spec(pre, vk).0,
        Call::Foreground { hwnd, exe } => pre.abandon().aimed_at(hwnd, exe),
        Call::Focus { hwnd, root } => if pre.target != 0 && root == pre.target && hwnd != root {
            pre.abandon()
        } else {
            pre
        },
        Call::Destroy { hwnd } => pre.with_modes(pre.modes.remove(hwnd)),
        Call::ToggleForeground { hwnd, exe, modes } => if hwnd == 0 {
            pre
        } else {
            pre.abandon().aimed_at(hwnd, exe).with_modes(modes)
        },
    }
}

/// The state after a sequence of calls, in order.
pub open spec fn run(start: AppView, calls: Seq<Call>) -> AppView
    decreases calls.len(),
{
    if calls.len() == 0 {
        start
    } else {
        apply(run(start, calls.drop_last()), calls.last())
    }
}

/// Whether a call is one the methods accept: key codes fit the 256-entry
/// record.
pub open spec fn call_allowed(call: Call) -> bool {
    match call {
        Call::KeyDown { vk, .. } => vk <= 0xFF,
        Call::KeyUp { vk } => vk <= 0xFF,
        _ => true,
    }
}

/// Whether `call` is the key-up of `vk`.
pub open spec fn is_key_up_of(call: Call, vk: u32) -> bool {
    call matches Call::KeyUp { vk: v } && v == vk
}

/// Whether `call`, made in state `pre`, is a key-down of `vk` that is
/// swallowed.
pub open spec fn swallows_key_down_of(pre: AppView, call: Call, vk: u32) -> bool {
    call matches Call::KeyDown { vk: v, foreground, mods, exe } && v == vk && !(key_down_spec(
        pre,
        v,
        foreground,
        mods,
        exe,
    ).1 is Pass)
}

/// One call changes the record of `vk` only if it is that key's key-up or a
/// swallowed key-down of it, and keeps the record's length.
proof fn lemma_apply_keeps_record(pre: AppView, call: Call, vk: u32)
    requires
        pre.swallowed.len() == 256,
        vk <= 0xFF,
        call_allowed(call),
    ensures
        apply(pre, call).swallowed.len() == 256,
        !is_key_up_of(call, vk) && !swallows_key_down_of(pre, call, vk) ==> apply(
            pre,
            call,
        ).swallowed[vk as int] == pre.swallowed[vk as int],
        swallows_key_down_of(pre, call, vk) ==> apply(pre, call).swallowed[vk as int],
        is_key_up_of(call, vk) ==> !apply(pre, call).swallowed[vk as int],
{
}

/// Once a key-down is swallowed, its key-up is swallowed too, whatever other
/// calls come in between, as long as none of them is that key's key-up: the
/// target never observes half a keystroke.
pub proof fn law_swallowed_key_up_after_any_calls(
    pre: AppView,
    vk: u32,
    foreground: isize,
    mods: Modifiers,
    exe: Seq<char>,
    calls: Seq<Call>,
)
    requires
        vk <= 0xFF,
        pre.swallowed.len() == 256,
        !(key_down_spec(pre, vk, foreground, mods, exe).1 is Pass),
        forall|i: int| 0 <= i < calls.len() ==> call_allowed(#[trigger] calls[i]),
        forall|i: int| 0 <= i < calls.len() ==> !is_key_up_of(#[trigger] calls[i], vk),
    ensures
        key_up_spec(run(key_down_spec(pre, vk, foreground, mods, exe).0, calls), vk).1,
{
    let mid = key_down_spec(pre, vk, foreground, mods, exe).0;
    lemma_record_stays_set(mid, vk, calls);
}

proof fn lemma_record_stays_set(start: AppView, vk: u32, calls: Seq<Call>)
    requires
        vk <= 0xFF,
        start.swallowed.len() == 256,
        start.swallowed[vk as int],
        forall|i: int| 0 <= i < calls.len() ==> call_allowed(#[trigger] calls[i]),
        forall|i: int| 0 <= i < calls.len() ==> !is_key_up_of(#[trigger] calls[i], vk),
    ensures
        run(start, calls).swallowed.len() == 256,
        run(start, calls).swallowed[vk as int],
    decreases calls.len(),
{
    if calls.len() > 0 {
        let rest = calls.drop_last();
        assert forall|i: int| 0 <= i < rest.len() implies call_allowed(#[trigger] rest[i])
            && !is_key_up_of(rest[i], vk) by {
            assert(rest[i] == calls[i]);
        }
        lemma_record_stays_set(start, vk, rest);
        let last = calls[calls.len() - 1];
        assert(call_allowed(last) && !is_key_up_of(last, vk));
        lemma_apply_keeps_record(run(start, rest), last, vk);
    }
}

/// A key whose record is clear (after its key-up, or in a fresh state) has
/// its key-up passed on, whatever calls come in between, as long as none of
/// them is a swallowed key-down of it.
pub proof fn law_unswallowed_key_up_passes_after_any_calls(
    start: AppView,
    vk: u32,
    calls: Seq<Call>,
)
    requires
        vk <= 0xFF,
        start.swallowed.len() == 256,
        !start.swallowed[vk as int],
        forall|i: int| 0 <= i < calls.len() ==> call_allowed(#[trigger] calls[i]),
        forall|i: int|
            0 <= i < calls.len() ==> !swallows_key_down_of(
                run(start, calls.take(i)),
                #[trigger] calls[i],
                vk,
            ),
    ensures
        !key_up_spec(run(start, calls), vk).1,
{
    lemma_record_stays_clear(start, vk, calls);
}

proof fn lemma_record_stays_clear(start: AppView, vk: u32, calls: Seq<Call>)
    requires
        vk <= 0xFF,
        start.swallowed.len() == 256,
        !start.swallowed[vk as int],
        forall|i: int| 0 <= i < calls.len() ==> call_allowed(#[trigger] calls[i]),
        forall|i: int|
            0 <= i < calls.len() ==> !swallows_key_down_of(
                run(start, calls.take(i)),
                #[trigger] calls[i],
                vk,
            ),
    ensures
        run(start, calls).swallowed.len() == 256,
        !run(start, calls).swallowed[vk as int],
    decreases calls.len(),
{
    if calls.len() > 0 {
        let rest = calls.drop_last();
        assert forall|i: int| 0 <= i < rest.len() implies call_allowed(#[trigger] rest[i])
            && !swallows_key_down_of(run(start, rest.take(i)), rest[i], vk) by {
            assert(rest[i] == calls[i]);
            assert(rest.take(i) =~= calls.take(i));
        }
        lemma_record_stays_clear(start, vk, rest);
        let n = calls.len() - 1;
        let last = calls[n];
        assert(calls.take(n) =~= rest);
        assert(call_allowed(last) && !swallows_key_down_of(run(start, calls.take(n)), last, vk));
        lemma_apply_keeps_record(run(start, rest), last, vk);
    }
}

/// The program state.
pub struct App {
    parser: Parser,
    modes: HashMap<isize, bool>,
    session: Session,
    target: isize,
    target_exe: String,
    msg_hwnd: isize,
    hotkeys_via_hook: bool,
    swallowed: [bool; 256],
}

impl View for App {
    type V = AppView;

    closed spec fn view(&self) -> AppView {
        AppView {
            modes: self.modes@,
            raw: self.session.raw@,
            emitted: self.session.emitted@,
            target: self.target,
            target_exe: self.target_exe@,
            msg_hwnd: self.msg_hwnd,
            hotkeys_via_hook: self.hotkeys_via_hook,
            swallowed: self.swallowed@,
        }
    }
}

impl App {
    /// The invariant every method keeps: the buffered word holds only the
    /// printable ASCII that the keyboard mapping produces, which is what the
    /// parser accepts.
    pub closed spec fn wf(&self) -> bool {
        forall|i: int| 0 <= i < self.session.raw@.len() ==> is_word_char(#[trigger] self.session.raw@[i])
    }

    proof fn lemma_wf_ascii(&self)
        requires
            self.wf(),
        ensures
            is_ascii_chars(self.session.raw@),
    {
    }

    /// The swallowed-key record has one entry for every virtual-key code.
    pub proof fn lemma_swallowed_len(&self)
        ensures
            self@.swallowed.len() == 256,
    {
    }

    pub fn new() -> (app: App)
        ensures
            app.wf(),
            app@.modes == Map::<isize, bool>::empty(),
            app@.raw == Seq::<char>::empty(),
            app@.emitted == Seq::<char>::empty(),
            app@.target == 0,
            app@.target_exe == Seq::<char>::empty(),
            app@.msg_hwnd == 0,
            !app@.hotkeys_via_hook,
            app@.swallowed == Seq::new(256, |i: int| false),
    {
        let app = App {
            parser: new_phonetic_parser(),
            modes: HashMap::new(),
            session: Session::default(),
            target: 0,
            target_exe: String::new(),
            msg_hwnd: 0,
            hotkeys_via_hook: false,
            swallowed: [false; 256],
        };
        assert(app@.swallowed =~= Seq::new(256, |i: int| false));
        app
    }

    /// The word being typed and the Bangla showing for it.
    pub fn session(&self) -> (s: &Session)
        ensures
            s.raw@ == self@.raw,
            s.emitted@ == self@.emitted,
    {
        &self.session
    }

    pub fn target(&self) -> (t: isize)
        ensures
            t == self@.target,
    {
        self.target
    }

    pub fn target_exe(&self) -> (s: &String)
        ensures
            s@ == self@.target_exe,
    {
        &self.target_exe
    }

    pub fn msg_hwnd(&self) -> (h: isize)
        ensures
            h == self@.msg_hwnd,
    {
        self.msg_hwnd
    }

    pub fn set_msg_hwnd(&mut self, hwnd: isize)
        requires
            old(self).wf(),
        ensures
            final(self).wf(),
            final(self)@ == (AppView { msg_hwnd: hwnd, ..old(self)@ }),
            final(self)@ == apply(old(self)@, Call::SetMsgHwnd { hwnd }),
    {
        self.msg_hwnd = hwnd;
    }

    pub fn hotkeys_via_hook(&self) -> (b: bool)
        ensures
            b == self@.hotkeys_via_hook,
    {
        self.hotkeys_via_hook
    }

    /// Record that the hotkey could not be registered, so the keyboard hook
    /// has to detect the toggle key itself.
    pub fn set_hotkeys_via_hook(&mut self, via_hook: bool)
        requires
            old(self).wf(),
        ensures
            final(self).wf(),
            final(self)@ == (AppView { hotkeys_via_hook: via_hook, ..old(self)@ }),
            final(self)@ == apply(old(self)@, Call::SetHotkeysViaHook { via_hook }),
    {
        self.hotkeys_via_hook = via_hook;
    }

    pub fn is_active(&self, hwnd: isize) -> (b: bool)
        ensures
            b == self@.mode(hwnd),
    {
        match self.modes.get(&hwnd) {
            Some(flag) => *flag,
            None => false,
        }
    }

    /// Forget the current word without touching the screen.
    pub fn abandon_word(&mut self)
        requires
            old(self).wf(),
        ensures
            final(self).wf(),
            final(self)@ == old(self)@.abandon(),
            final(self)@ == apply(old(self)@, Call::AbandonWord),
    {
        self.session.clear();
    }

    /// Drop entries for windows that no longer exist. Window handles are
    /// recycled by Windows, so leaving stale entries around would eventually
    /// hand a fresh window somebody else's mode. `alive` says whether a handle
    /// still names a window.
    pub fn prune<F: Fn(isize) -> bool>(&mut self, alive: F)
        requires
            old(self).wf(),
            forall|k: isize| alive.requires((k,)),
        ensures
            final(self).wf(),
            final(self)@ == old(self)@.with_modes(final(self)@.modes),
            final(self)@ == apply(old(self)@, Call::Prune { modes: final(self)@.modes }),
            pruned(old(self)@.modes, final(self)@.modes, alive),
    {
        let ghost before = self.modes@;
        let mut kept: HashMap<isize, bool> = HashMap::new();
        assert(vstd::std_specs::hash::spec_keys_iter(&self.modes).remaining().unref().to_set()
            == before.dom());
        for key in it: self.modes.keys()
            invariant
                self.modes@ == before,
                forall|k: isize| alive.requires((k,)),
                it.seq().unref().to_set() == before.dom(),
                forall|k: isize| #[trigger]
                    kept@.contains_key(k) ==> before.contains_key(k) && kept@[k] == before[k]
                        && alive.ensures((k,), true),
                forall|i: int|
                    0 <= i < it.index() ==> kept@.contains_key(*#[trigger] it.seq()[i])
                        || alive.ensures((*it.seq()[i],), false),
        {
            let k = *key;
            if alive(k) {
                let flag = self.is_active(k);
                kept.insert(k, flag);
            }
        }
        self.modes = kept;
    }

    /// Flip the mode of `hwnd` and return the new value. The current word is
    /// abandoned and windows that no longer exist are forgotten.
    pub fn toggle<F: Fn(isize) -> bool>(&mut self, hwnd: isize, alive: F) -> (now: bool)
        requires
            old(self).wf(),
            forall|k: isize| alive.requires((k,)),
        ensures
            final(self).wf(),
            now == !old(self)@.mode(hwnd),
            final(self)@ == old(self)@.abandon().with_modes(final(self)@.modes),
            final(self)@ == apply(old(self)@, Call::Toggle { modes: final(self)@.modes }),
            pruned(toggled(old(self)@.modes, hwnd), final(self)@.modes, alive),
    {
        self.session.clear();
        let now = !self.is_active(hwnd);
        self.modes.insert(hwnd, now);
        self.prune(alive);
        now
    }

    /// Aim at another window. `exe` is the full image path of its process.
    pub fn retarget(&mut self, hwnd: isize, exe: String)
        requires
            old(self).wf(),
        ensures
            final(self).wf(),
            final(self)@ == old(self)@.aimed_at(hwnd, exe@),
            final(self)@ == apply(old(self)@, Call::Retarget { hwnd, exe: exe@ }),
    {
        self.target = hwnd;
        self.target_exe = exe;
    }

    /// Re-convert the buffer and return the difference to patch onto the
    /// screen.
    pub fn render(&mut self) -> (r: Replacement)
        requires
            old(self).wf(),
        ensures
            final(self).wf(),
            final(self)@ == (AppView { emitted: phonetic(old(self)@.raw), ..old(self)@ }),
            final(self)@ == apply(old(self)@, Call::Render),
            (r.backspaces as nat, r.text@) == replacement_spec(
                old(self)@.emitted,
                phonetic(old(self)@.raw),
            ),
    {
        proof {
            self.lemma_wf_ascii();
        }
        let next = convert(&self.parser, self.session.raw.as_str());
        let replacement = diff(self.session.emitted.as_str(), next.as_str());
        self.session.emitted = next;
        replacement
    }

    /// A key went down.
    ///
    /// `foreground` is the window that has the focus, `mods` the modifier
    /// state, and `resolve_exe` yields the image path of a window's process;
    /// it is called only when the focus has moved to a new target.
    pub fn key_down<G: FnOnce(isize) -> String>(
        &mut self,
        vk: u32,
        foreground: isize,
        mods: Modifiers,
        resolve_exe: G,
    ) -> (r: KeyResponse)
        requires
            old(self).wf(),
            vk <= 0xFF,
            resolve_exe.requires((foreground,)),
        ensures
            final(self).wf(),
            (final(self)@, r.outcome()) == key_down_spec(
                old(self)@,
                vk,
                foreground,
                mods,
                final(self)@.target_exe,
            ),
            final(self)@ == apply(
                old(self)@,
                Call::KeyDown { vk, foreground, mods, exe: final(self)@.target_exe },
            ),
            !is_fallback_hotkey(old(self)@, vk) && foreground != old(self)@.target ==> (exists|
                exe: String,
            | resolve_exe.ensures((foreground,), exe) && exe@ == final(self)@.target_exe),
    {
        if self.hotkeys_via_hook && vk == VK_F11 {
            self.swallowed[vk as usize] = true;
            return KeyResponse::ToggleHotkey;
        }
        if foreground != self.target {
            self.abandon_word();
            let exe = resolve_exe(foreground);
            self.retarget(foreground, exe);
        }
        if !self.is_active(foreground) || is_shortcut(&mods) {
            self.abandon_word();
            return KeyResponse::Pass;
        }
        match classify(vk, mods.shift, mods.caps_lock) {
            Action::Word(c) => {
                string_push(&mut self.session.raw, c);
                let replacement = self.render();
                self.swallowed[vk as usize] = true;
                KeyResponse::Rewrite(replacement)
            },
            Action::Transparent => KeyResponse::Pass,
            Action::Break => {
                self.abandon_word();
                KeyResponse::Pass
            },
        }
    }

    /// A key came up: swallow it exactly when its key-down was swallowed, so
    /// the target never observes half a keystroke.
    pub fn key_up(&mut self, vk: u32) -> (swallow: bool)
        requires
            old(self).wf(),
            vk <= 0xFF,
        ensures
            final(self).wf(),
            (final(self)@, swallow) == key_up_spec(old(self)@, vk),
            final(self)@ == apply(old(self)@, Call::KeyUp { vk }),
    {
        let was = self.swallowed[vk as usize];
        self.swallowed[vk as usize] = false;
        was
    }

    /// The focus moved to another top-level window: the word being typed is
    /// abandoned and the window becomes the target. `exe` is the full image
    /// path of its process.
    pub fn on_foreground(&mut self, hwnd: isize, exe: String)
        requires
            old(self).wf(),
        ensures
            final(self).wf(),
            final(self)@ == old(self)@.abandon().aimed_at(hwnd, exe@),
            final(self)@ == apply(old(self)@, Call::Foreground { hwnd, exe: exe@ }),
    {
        self.abandon_word();
        self.retarget(hwnd, exe);
    }

    /// A control took the focus. `root` is the top-level window it belongs to.
    ///
    /// The word is abandoned only when the event belongs to the target window
    /// and names a child of it: focus events are global and noisy, and some
    /// applications announce focus on their own top-level window for every
    /// keystroke, which would otherwise split words between letters.
    pub fn on_focus(&mut self, hwnd: isize, root: isize)
        requires
            old(self).wf(),
        ensures
            final(self).wf(),
            final(self)@ == (if old(self)@.target != 0 && root == old(self)@.target && hwnd
                != root {
                old(self)@.abandon()
            } else {
                old(self)@
            }),
            final(self)@ == apply(old(self)@, Call::Focus { hwnd, root }),
    {
        if self.target != 0 && root == self.target && hwnd != root {
            self.abandon_word();
        }
    }

    /// A window was destroyed: forget its mode.
    pub fn on_destroy(&mut self, hwnd: isize)
        requires
            old(self).wf(),
        ensures
            final(self).wf(),
            final(self)@ == old(self)@.with_modes(old(self)@.modes.remove(hwnd)),
            final(self)@ == apply(old(self)@, Call::Destroy { hwnd }),
    {
        self.modes.remove(&hwnd);
    }

    /// The toggle key was pressed: flip the mode of the foreground window,
    /// aiming at it first if it is not the target. Returns the new mode, or
    /// `None` when there is no foreground window.
    pub fn toggle_foreground<G: FnOnce(isize) -> String, F: Fn(isize) -> bool>(
        &mut self,
        foreground: isize,
        resolve_exe: G,
        alive: F,
    ) -> (r: Option<bool>)
        requires
            old(self).wf(),
            resolve_exe.requires((foreground,)),
            forall|k: isize| alive.requires((k,)),
        ensures
            final(self).wf(),
            final(self)@ == apply(
                old(self)@,
                Call::ToggleForeground {
                    hwnd: foreground,
                    exe: final(self)@.target_exe,
                    modes: final(self)@.modes,
                },
            ),
            foreground == 0 ==> r is None && final(self)@ == old(self)@,
            foreground != 0 ==> {
                &&& r == Some(!old(self)@.mode(foreground))
                &&& final(self)@ == old(self)@.abandon().aimed_at(
                    foreground,
                    final(self)@.target_exe,
                ).with_modes(final(self)@.modes)
                &&& foreground == old(self)@.target ==> final(self)@.target_exe
                    == old(self)@.target_exe
                &&& pruned(toggled(old(self)@.modes, foreground), final(self)@.modes, alive)
            },
            foreground != 0 && foreground != old(self)@.target ==> (exists|exe: String|
                resolve_exe.ensures((foreground,), exe) && exe@ == final(self)@.target_exe),
    {
        if foreground == 0 {
            return None;
        }
        if foreground != self.target {
            let exe = resolve_exe(foreground);
            self.retarget(foreground, exe);
        }
        Some(self.toggle(foreground, alive))
    }

    /// What the tray shows for the target: whether it is active, and the
    /// tooltip naming its application.
    pub fn tray_status(&self) -> (r: (bool, String))
        ensures
            r.0 == self@.mode(self@.target),
            r.1@ == tray_label_spec(exe_name_spec(self@.target_exe), r.0),
    {
        let active = self.is_active(self.target);
        let name = exe_name(self.target_exe.as_str());
        (active, tray_label(name, active))
    }
}

// ---------------------------------------------------------------------------
// Laws
// ---------------------------------------------------------------------------

/// Every window starts inactive: a window with no recorded mode is inactive,
/// and a fresh state records none.
pub proof fn law_windows_start_inactive(v: AppView, hwnd: isize)
    requires
        v.modes == Map::<isize, bool>::empty(),
    ensures
        !v.mode(hwnd),
{
}

/// Toggling a window twice gives it back its mode, provided it still exists.
pub proof fn law_toggle_twice_restores<F: Fn(isize) -> bool, G: Fn(isize) -> bool>(
    modes: Map<isize, bool>,
    hwnd: isize,
    once: Map<isize, bool>,
    alive_once: F,
    twice: Map<isize, bool>,
    alive_twice: G,
)
    requires
        pruned(toggled(modes, hwnd), once, alive_once),
        pruned(toggled(once, hwnd), twice, alive_twice),
        once.contains_key(hwnd),
        twice.contains_key(hwnd),
    ensures
        (twice.contains_key(hwnd) && twice[hwnd]) == (modes.contains_key(hwnd) && modes[hwnd]),
{
}

/// The mode is kept per window: toggling one window leaves every other
/// window's mode as it was, unless that window no longer exists, in which case
/// it is forgotten.
pub proof fn law_toggle_is_per_window<F: Fn(isize) -> bool>(
    modes: Map<isize, bool>,
    hwnd: isize,
    after: Map<isize, bool>,
    alive: F,
    other: isize,
)
    requires
        pruned(toggled(modes, hwnd), after, alive),
        other != hwnd,
    ensures
        after.contains_key(other) ==> modes.contains_key(other) && after[other] == modes[other],
        modes.contains_key(other) && !after.contains_key(other) ==> alive.ensures((other,), false),
{
    if modes.contains_key(other) {
        assert(toggled(modes, hwnd).contains_key(other));
    }
}

/// A destroyed window's mode is forgotten, so a recycled handle starts
/// inactive.
pub proof fn law_destroyed_window_is_inactive(v: AppView, hwnd: isize)
    ensures
        !v.with_modes(v.modes.remove(hwnd)).mode(hwnd),
{
}

/// The live preview stays in step with the parser: when a key-down rewrites
/// the preview, the new preview is the parser's conversion of the new word,
/// and applying the rewrite to what was on screen (nothing, if the focus had
/// moved to a new window) leaves exactly the new preview there, counted in the
/// UTF-16 units a backspace erases.
pub proof fn law_rewrite_keeps_preview_in_step(
    pre: AppView,
    vk: u32,
    foreground: isize,
    mods: Modifiers,
    exe: Seq<char>,
)
    ensures
        ({
            let (post, outcome) = key_down_spec(pre, vk, foreground, mods, exe);
            let shown = if foreground != pre.target {
                Seq::<char>::empty()
            } else {
                pre.emitted
            };
            outcome matches KeyOutcome::Rewrite(backspaces, text) ==> {
                &&& post.emitted == phonetic(post.raw)
                &&& backspaces <= utf16_len(shown)
                &&& encode_utf16(shown).take(utf16_len(shown) - backspaces) + encode_utf16(text)
                    == encode_utf16(post.emitted)
            }
        }),
{
    let (post, outcome) = key_down_spec(pre, vk, foreground, mods, exe);
    let shown = if foreground != pre.target {
        Seq::<char>::empty()
    } else {
        pre.emitted
    };
    if outcome is Rewrite {
        law_replacement_rebuilds_new(shown, post.emitted);
    }
}

/// A key whose key-down was swallowed (a rewrite, or the toggle key caught in
/// the hook) has its key-up swallowed too, and that clears the record, so the
/// target never observes half a keystroke; a key that was passed on leaves the
/// record alone, and its key-up is swallowed only if an earlier key-down of it
/// was. Every [`App`]'s view has a record of this length
/// ([`App::lemma_swallowed_len`]).
pub proof fn law_swallowed_keys_stay_paired(
    pre: AppView,
    vk: u32,
    foreground: isize,
    mods: Modifiers,
    exe: Seq<char>,
)
    requires
        vk <= 0xFF,
        pre.swallowed.len() == 256,
    ensures
        ({
            let (mid, outcome) = key_down_spec(pre, vk, foreground, mods, exe);
            let (post, swallow_up) = key_up_spec(mid, vk);
            &&& !(outcome is Pass) ==> mid.swallowed[vk as int] && swallow_up
                && !post.swallowed[vk as int]
            &&& outcome is Pass ==> mid.swallowed == pre.swallowed && swallow_up
                == pre.swallowed[vk as int]
        }),
{
}

/// Shift and Caps Lock neither end nor extend the word being typed: Avro is
/// case sensitive, so `s` then Shift then `h` must stay one word.
pub proof fn law_case_keys_keep_the_word(
    pre: AppView,
    vk: u32,
    mods: Modifiers,
    exe: Seq<char>,
)
    requires
        vk == VK_SHIFT || vk == VK_CAPITAL || vk == 0xA0 || vk == 0xA1,
        !is_fallback_hotkey(pre, vk),
        pre.mode(pre.target),
        !(mods.ctrl || mods.alt || mods.lwin || mods.rwin),
    ensures
        key_down_spec(pre, vk, pre.target, mods, exe) == (pre, KeyOutcome::Pass),
{
}

/// A word ends at anything that is not a letter, digit, punctuation okkhor
/// converts, or modifier: the buffer is dropped without touching the screen,
/// and the key reaches the application.
pub proof fn law_word_breaks_drop_the_buffer(
    pre: AppView,
    vk: u32,
    foreground: isize,
    mods: Modifiers,
    exe: Seq<char>,
)
    requires
        !is_fallback_hotkey(pre, vk),
        classify_spec(vk, mods.shift, mods.caps_lock) == Action::Break,
    ensures
        ({
            let (post, outcome) = key_down_spec(pre, vk, foreground, mods, exe);
            &&& outcome is Pass
            &&& post.raw == Seq::<char>::empty()
            &&& post.emitted == Seq::<char>::empty()
        }),
{
}

/// The punctuation okkhor converts extends the word instead of ending it, so
/// `..` can become `।।` and the dot in `3.14` can stay a dot.
pub proof fn law_punctuation_extends_the_word(
    pre: AppView,
    vk: u32,
    mods: Modifiers,
    exe: Seq<char>,
)
    requires
        !is_fallback_hotkey(pre, vk),
        pre.mode(pre.target),
        !(mods.ctrl || mods.alt || mods.lwin || mods.rwin),
        punctuation_spec(vk, mods.shift) is Some,
    ensures
        ({
            let (post, outcome) = key_down_spec(pre, vk, pre.target, mods, exe);
            &&& outcome is Rewrite
            &&& post.raw == pre.raw.push(punctuation_spec(vk, mods.shift).unwrap())
        }),
{
}

/// In a window where transliteration is inactive every key reaches the
/// application, and nothing is buffered.
pub proof fn law_inactive_windows_pass_keys(
    pre: AppView,
    vk: u32,
    foreground: isize,
    mods: Modifiers,
    exe: Seq<char>,
)
    requires
        !is_fallback_hotkey(pre, vk),
        !pre.mode(foreground),
    ensures
        ({
            let (post, outcome) = key_down_spec(pre, vk, foreground, mods, exe);
            &&& outcome is Pass
            &&& post.raw == Seq::<char>::empty()
            &&& post.emitted == Seq::<char>::empty()
            &&& post.modes == pre.modes
        }),
{
}

/// A key pressed with Ctrl, Alt or a Windows key held is a shortcut, not
/// typing: it reaches the application unchanged, the word being typed is
/// dropped without touching the screen, and no window's mode changes.
pub proof fn law_shortcuts_pass_keys(
    pre: AppView,
    vk: u32,
    foreground: isize,
    mods: Modifiers,
    exe: Seq<char>,
)
    requires
        !is_fallback_hotkey(pre, vk),
        mods.ctrl || mods.alt || mods.lwin || mods.rwin,
    ensures
        ({
            let (post, outcome) = key_down_spec(pre, vk, foreground, mods, exe);
            &&& outcome is Pass
            &&& post.raw == Seq::<char>::empty()
            &&& post.emitted == Seq::<char>::empty()
            &&& post.modes == pre.modes
            &&& post.swallowed == pre.swallowed
        }),
{
}

/// Typing in the active target: a key that adds a character to the word is
/// swallowed and rewritten, the word grows by exactly that character, and the
/// preview becomes okkhor's conversion of the grown word.
pub proof fn law_typing_extends_the_word(
    pre: AppView,
    vk: u32,
    mods: Modifiers,
    exe: Seq<char>,
    c: char,
)
    requires
        !is_fallback_hotkey(pre, vk),
        pre.mode(pre.target),
        !(mods.ctrl || mods.alt || mods.lwin || mods.rwin),
        classify_spec(vk, mods.shift, mods.caps_lock) == Action::Word(c),
    ensures
        ({
            let (post, outcome) = key_down_spec(pre, vk, pre.target, mods, exe);
            &&& outcome is Rewrite
            &&& post.raw == pre.raw.push(c)
            &&& post.emitted == phonetic(pre.raw.push(c))
            &&& post.modes == pre.modes
            &&& post.target == pre.target
        }),
{
}

/// When the toggle hotkey could not be registered, F11 is caught in the hook:
/// it asks for the toggle and is swallowed, and nothing else changes. When it
/// was registered, the hook never claims F11.
pub proof fn law_fallback_hotkey_is_caught_in_the_hook(
    pre: AppView,
    foreground: isize,
    mods: Modifiers,
    exe: Seq<char>,
)
    ensures
        pre.hotkeys_via_hook ==> ({
            let (post, outcome) = key_down_spec(pre, 0x7A, foreground, mods, exe);
            &&& outcome is ToggleHotkey
            &&& post == AppView { swallowed: pre.swallowed.update(0x7A, true), ..pre }
        }),
        !pre.hotkeys_via_hook ==> !(key_down_spec(pre, 0x7A, foreground, mods, exe).1 is ToggleHotkey),
{
}

/// Focus events inside other windows, and a window announcing focus on
/// itself, keep the word being typed; only a control inside the target taking
/// the focus abandons it, without touching the screen. Nothing else changes.
pub proof fn law_focus_noise_keeps_the_word(pre: AppView, hwnd: isize, root: isize)
    ensures
        root != pre.target || hwnd == root || pre.target == 0 ==> apply(
            pre,
            Call::Focus { hwnd, root },
        ) == pre,
        pre.target != 0 && root == pre.target && hwnd != root ==> ({
            let post = apply(pre, Call::Focus { hwnd, root });
            &&& post.raw == Seq::<char>::empty()
            &&& post.emitted == Seq::<char>::empty()
            &&& post.modes == pre.modes
            &&& post.target == pre.target
            &&& post.swallowed == pre.swallowed
        }),
{
}

/// A new foreground window becomes the target and the word is abandoned;
/// every window keeps its mode.
pub proof fn law_foreground_change_retargets(pre: AppView, hwnd: isize, exe: Seq<char>)
    ensures
        ({
            let post = apply(pre, Call::Foreground { hwnd, exe });
            &&& post.target == hwnd
            &&& post.target_exe == exe
            &&& post.raw == Seq::<char>::empty()
            &&& post.emitted == Seq::<char>::empty()
            &&& post.modes == pre.modes
            &&& post.swallowed == pre.swallowed
        }),
{
}

/// Whether `c` separates components of a path.
pub open spec fn is_path_separator(c: char) -> bool {
    c == '\\' || c == '/'
}

/// Index of the last path separator in `s`, or -1 if there is none.
pub open spec fn last_separator(s: Seq<char>) -> int
    decreases s.len(),
{
    if s.len() == 0 {
        -1
    } else if is_path_separator(s.last()) {
        s.len() - 1
    } else {
        last_separator(s.drop_last())
    }
}

/// The last component of a path: everything after its last separator.
pub open spec fn exe_name_spec(path: Seq<char>) -> Seq<char> {
    path.skip(last_separator(path) + 1)
}

proof fn lemma_last_separator_bounds(s: Seq<char>)
    ensures
        -1 <= last_separator(s) < s.len(),
        last_separator(s) >= 0 ==> is_path_separator(s[last_separator(s)]),
        forall|k: int| last_separator(s) < k < s.len() ==> !is_path_separator(#[trigger] s[k]),
    decreases s.len(),
{
    if s.len() > 0 && !is_path_separator(s.last()) {
        let t = s.drop_last();
        lemma_last_separator_bounds(t);
        assert forall|k: int| last_separator(s) < k < s.len() implies !is_path_separator(
            #[trigger] s[k],
        ) by {
            if k < s.len() - 1 {
                assert(s[k] == t[k]);
            }
        }
    }
}

/// The file name of a path is the end of the path that holds no `\` or `/`,
/// taken as far back as the last separator (or the whole path when there is
/// none).
pub proof fn law_exe_name_is_the_last_component(path: Seq<char>)
    ensures
        ({
            let name = exe_name_spec(path);
            &&& name.len() <= path.len()
            &&& path.skip(path.len() - name.len()) == name
            &&& forall|k: int| 0 <= k < name.len() ==> #[trigger] name[k] != '\\' && name[k] != '/'
            &&& name.len() == path.len() || path[path.len() - name.len() - 1] == '\\' || path[path.len()
                - name.len() - 1] == '/'
        }),
{
    lemma_last_separator_bounds(path);
    let name = exe_name_spec(path);
    let j = last_separator(path) + 1;
    assert(name.len() == path.len() - j);
    assert(path.skip(path.len() - name.len()) =~= name);
    assert forall|k: int| 0 <= k < name.len() implies #[trigger] name[k] != '\\' && name[k] != '/' by {
        assert(name[k] == path[j + k]);
    }
}

/// Number of bytes in the UTF-8 encoding of `c`.
fn utf8_width(c: char) -> (w: usize)
    ensures
        w == encode_scalar(c as u32).len(),
{
    proof {
        vstd::utf8::char_is_scalar(c);
    }
    let v = c as u32;
    if v < 0x80 {
        1
    } else if v < 0x800 {
        2
    } else if v < 0x10000 {
        3
    } else {
        4
    }
}

/// Just the file name of a path, for display.
pub fn exe_name(path: &str) -> (name: &str)
    ensures
        name@ == exe_name_spec(path@),
{
    let byte_len = path.as_bytes().len();
    let chars = chars_of(path);
    let mut i: usize = chars.len();
    assert(path@.take(i as int) =~= path@);
    while i > 0 && !(chars[i - 1] == '\\' || chars[i - 1] == '/')
        invariant
            chars@ == path@,
            i <= chars@.len(),
            last_separator(path@) == last_separator(path@.take(i as int)),
        decreases i,
    {
        proof {
            assert(path@.take(i as int).drop_last() =~= path@.take(i - 1));
        }
        i = i - 1;
    }
    proof {
        if i > 0 {
            assert(path@.take(i as int).last() == path@[i - 1]);
        }
        assert(path@.take(0) =~= Seq::<char>::empty());
        assert(last_separator(path@) + 1 == i);
    }
    // Byte offset of the first character after the separator.
    let mut offset: usize = 0;
    let mut j: usize = 0;
    proof {
        lemma_encode_utf8_split(path@, i as int);
        assert(path@.take(0) =~= Seq::<char>::empty());
    }
    while j < i
        invariant
            chars@ == path@,
            j <= i <= chars@.len(),
            offset == encode_utf8(path@.take(j as int)).len(),
            encode_utf8(path@.take(i as int)).len() <= byte_len,
        decreases i - j,
    {
        proof {
            let t = path@.take(j + 1);
            assert(t =~= path@.take(j as int) + seq![chars[j as int]]);
            lemma_encode_utf8_concat(path@.take(j as int), seq![chars[j as int]]);
            lemma_encode_utf8_single(chars[j as int]);
            assert(path@.take(i as int) =~= t + path@.take(i as int).skip(j + 1));
            lemma_encode_utf8_concat(t, path@.take(i as int).skip(j + 1));
        }
        offset = offset + utf8_width(chars[j]);
        j = j + 1;
    }
    proof {
        lemma_prefix_end_is_boundary(path@, i as int);
    }
    let (_, name) = path.split_at(offset);
    proof {
        assert(encode_utf8(name@) == encode_utf8(path@.skip(i as int)));
        lemma_encode_utf8_injective(name@, path@.skip(i as int));
    }
    name
}

/// Window classes that own the notification area. A click on the tray briefly
/// makes one of these the foreground window; treating that as the new
/// transliteration target would make the tray menu act on the wrong window.
pub open spec fn shell_classes() -> Seq<Seq<char>> {
    seq![
        "Shell_TrayWnd"@,
        "NotifyIconOverflowWindow"@,
        "TopLevelWindowForOverflowXamlIsland"@,
        "Windows.UI.Core.CoreWindow"@,
        "XamlExplorerHostIslandWindow"@,
    ]
}

/// Whether a window of class `class` belongs to the notification area.
pub fn is_shell_class(class: &str) -> (b: bool)
    ensures
        b == shell_classes().contains(class@),
{
    let names = [
        "Shell_TrayWnd",
        "NotifyIconOverflowWindow",
        "TopLevelWindowForOverflowXamlIsland",
        "Windows.UI.Core.CoreWindow",
        "XamlExplorerHostIslandWindow",
    ];
    let mut i: usize = 0;
    while i < 5
        invariant
            i <= 5,
            names@.len() == 5,
            forall|k: int| 0 <= k < 5 ==> (#[trigger] names@[k])@ == shell_classes()[k],
            forall|k: int| 0 <= k < i ==> (#[trigger] shell_classes()[k]) != class@,
        decreases 5 - i,
    {
        if str_equal(names[i], class) {
            assert(shell_classes()[i as int] == class@);
            return true;
        }
        i = i + 1;
    }
    assert(!shell_classes().contains(class@)) by {
        if shell_classes().contains(class@) {
            let k = choose|k: int| 0 <= k < 5 && shell_classes()[k] == class@;
            assert(shell_classes()[k] != class@);
        }
    }
    false
}

/// The notification area's windows are exactly those of these five classes:
/// a click on the tray makes one of them the foreground window for a moment,
/// and it must not become the target.
pub proof fn law_shell_classes(class: Seq<char>)
    ensures
        shell_classes().contains(class) <==> (class == "Shell_TrayWnd"@ || class
            == "NotifyIconOverflowWindow"@ || class == "TopLevelWindowForOverflowXamlIsland"@
            || class == "Windows.UI.Core.CoreWindow"@ || class == "XamlExplorerHostIslandWindow"@),
{
    let t = shell_classes();
    if class == "Shell_TrayWnd"@ {
        assert(t[0] == class);
    } else if class == "NotifyIconOverflowWindow"@ {
        assert(t[1] == class);
    } else if class == "TopLevelWindowForOverflowXamlIsland"@ {
        assert(t[2] == class);
    } else if class == "Windows.UI.Core.CoreWindow"@ {
        assert(t[3] == class);
    } else if class == "XamlExplorerHostIslandWindow"@ {
        assert(t[4] == class);
    }
    if t.contains(class) {
        let k = choose|k: int| 0 <= k < t.len() && t[k] == class;
        assert(k == 0 || k == 1 || k == 2 || k == 3 || k == 4);
    }
}

} // verus!
