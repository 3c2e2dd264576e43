//! Recognizing the switch hotkey: Escape going down while a GUI key
//! (Windows / Command) is held, with no other key pressed since the GUI
//! key went down. Cancelling a Win+Tab or Cmd+Tab switcher with Escape
//! therefore does not count. (Scroll Lock is a single key: the Windows
//! capture checks for it itself.)
//!
//! Fed with every key press and release the capture sees, by HID usage.

use vstd::prelude::*;

verus! {

pub const LEFT_GUI: u8 = 0xE3;
pub const RIGHT_GUI: u8 = 0xE7;
pub const ESCAPE: u8 = 0x29;

#[derive(Debug)]
pub struct Watch {
    /// GUI keys held: bit 0 left, bit 1 right.
    gui: u8,
    /// No other key pressed since a GUI key went down.
    clean: bool,
}

/// The bit of a GUI key in [`Watch`]'s record of GUI keys held.
pub open spec fn gui_mask(usage: u8) -> u8 {
    if usage == LEFT_GUI {
        1
    } else {
        2
    }
}

fn gui_bit(usage: u8) -> (r: u8)
    ensures
        r == gui_mask(usage),
{
    if usage == LEFT_GUI {
        1
    } else {
        2
    }
}

impl Default for Watch {
    fn default() -> (r: Watch)
        ensures
            r.gui_held() == 0,
            !r.is_clean(),
    {
        Watch { gui: 0, clean: false }
    }
}

impl Watch {
    /// GUI keys held: bit 0 left, bit 1 right.
    pub closed spec fn gui_held(self) -> u8 {
        self.gui
    }

    /// No other key pressed since a GUI key went down.
    pub closed spec fn is_clean(self) -> bool {
        self.clean
    }

    /// The same watch, with these GUI keys held and this cleanliness.
    pub closed spec fn with(self, gui: u8, clean: bool) -> Watch {
        Watch { gui, clean }
    }

    /// What [`Watch::with`] gives: these GUI keys held, this cleanliness.
    pub proof fn lemma_with(self, gui: u8, clean: bool)
        ensures
            #[trigger] self.with(gui, clean).gui_held() == gui,
            self.with(gui, clean).is_clean() == clean,
    {
    }

    /// The watch after a press, and whether the press completes the
    /// hotkey: Escape with a GUI key held and nothing else pressed since.
    pub open spec fn after_press(self, usage: Option<u8>) -> (Watch, bool) {
        match usage {
            Some(u) => if u == LEFT_GUI || u == RIGHT_GUI {
                (self.with(self.gui_held() | gui_mask(u), true), false)
            } else if u == ESCAPE {
                (self.with(self.gui_held(), false), self.gui_held() != 0 && self.is_clean())
            } else {
                (self.with(self.gui_held(), false), false)
            },
            None => (self.with(self.gui_held(), false), false),
        }
    }

    /// The watch after a release: letting go of the last GUI key ends the
    /// chance of a hotkey.
    pub open spec fn after_release(self, usage: Option<u8>) -> Watch {
        match usage {
            Some(u) => if u == LEFT_GUI || u == RIGHT_GUI {
                let gui = self.gui_held() & !gui_mask(u);
                self.with(gui, if gui == 0 { false } else { self.is_clean() })
            } else {
                self
            },
            None => self,
        }
    }

    /// A key went down: a new press, not an auto-repeat. True if it
    /// completes the hotkey.
    pub fn press(&mut self, usage: Option<u8>) -> (completes: bool)
        ensures
            (*final(self), completes) == old(self).after_press(usage),
            final(self).gui_held() == (match usage {
                Some(u) => if u == LEFT_GUI || u == RIGHT_GUI {
                    old(self).gui_held() | gui_mask(u)
                } else {
                    old(self).gui_held()
                },
                None => old(self).gui_held(),
            }),
            final(self).is_clean() == (usage == Some(LEFT_GUI) || usage == Some(RIGHT_GUI)),
    {
        match usage {
            Some(u) => {
                if u == LEFT_GUI || u == RIGHT_GUI {
                    self.gui = self.gui | gui_bit(u);
                    self.clean = true;
                    false
                } else if u == ESCAPE {
                    let completes = self.gui != 0 && self.clean;
                    self.clean = false;
                    completes
                } else {
                    self.clean = false;
                    false
                }
            },
            None => {
                self.clean = false;
                false
            },
        }
    }

    /// Whether a press of `usage` would complete the hotkey now.
    pub fn would_complete(&self, usage: Option<u8>) -> (r: bool)
        ensures
            r == self.after_press(usage).1,
    {
        match usage {
            Some(u) => u != LEFT_GUI && u != RIGHT_GUI && u == ESCAPE && self.gui != 0 && self.clean,
            None => false,
        }
    }

    pub fn release(&mut self, usage: Option<u8>)
        ensures
            *final(self) == old(self).after_release(usage),
            final(self).gui_held() == (match usage {
                Some(u) => if u == LEFT_GUI || u == RIGHT_GUI {
                    old(self).gui_held() & !gui_mask(u)
                } else {
                    old(self).gui_held()
                },
                None => old(self).gui_held(),
            }),
            final(self).is_clean() == (old(self).is_clean() && !((usage == Some(LEFT_GUI)
                || usage == Some(RIGHT_GUI)) && final(self).gui_held() == 0)),
    {
        if let Some(u) = usage {
            if u == LEFT_GUI || u == RIGHT_GUI {
                self.gui = self.gui & !gui_bit(u);
                if self.gui == 0 {
                    self.clean = false;
                }
            }
        }
    }
}

/// A press completes the hotkey only if it is Escape, a GUI key is held,
/// and no other key went down since a GUI key did.
pub proof fn law_only_a_clean_gui_escape_completes(w: Watch, usage: Option<u8>)
    ensures
        w.after_press(usage).1 <==> (usage == Some(ESCAPE) && w.gui_held() != 0 && w.is_clean()),
{
}

/// Any press other than a GUI key spoils the hotkey: an Escape right after
/// it does not complete it. Escape itself counts too, so the hotkey
/// completes at most once per GUI press.
pub proof fn law_another_key_in_between_does_not_count(w: Watch, usage: Option<u8>)
    requires
        usage != Some(LEFT_GUI),
        usage != Some(RIGHT_GUI),
    ensures
        !w.after_press(usage).0.after_press(Some(ESCAPE)).1,
{
}

/// With nothing but a GUI key pressed after any history, Escape completes
/// the hotkey.
pub proof fn law_gui_then_escape(w: Watch, gui: u8)
    requires
        gui == LEFT_GUI || gui == RIGHT_GUI,
    ensures
        w.after_press(Some(gui)).0.after_press(Some(ESCAPE)).1,
{
    let held = w.gui_held();
    let bit = gui_mask(gui);
    assert(held | bit != 0) by (bit_vector)
        requires
            bit == 1 || bit == 2,
    ;
}

/// Letting go of every GUI key held ends the chance of a hotkey: Escape
/// does not complete it then.
pub proof fn law_needs_gui_held(w: Watch)
    requires
        w.gui_held() == 0,
    ensures
        !w.after_press(Some(ESCAPE)).1,
{
}

/// Letting go of a key does not change whether pressing that same key
/// completes the hotkey: a GUI key never does, and letting go of any
/// other key changes nothing.
pub proof fn lemma_release_keeps_completion(w: Watch, usage: Option<u8>)
    ensures
        w.after_release(usage).after_press(usage).1 == w.after_press(usage).1,
{
}

// ── the hotkey over a history of keys ─────────────────────────────

/// A key going down (`true`) or up, by HID usage.
pub type KeyEvent = (bool, Option<u8>);

/// Whether `usage` is a GUI key.
pub open spec fn is_gui(usage: Option<u8>) -> bool {
    usage == Some(LEFT_GUI) || usage == Some(RIGHT_GUI)
}

/// The watch after `events`, one after the other.
pub open spec fn replay(w: Watch, events: Seq<KeyEvent>) -> Watch
    decreases events.len(),
{
    if events.len() == 0 {
        w
    } else {
        let e = events.last();
        let v = replay(w, events.drop_last());
        if e.0 {
            v.after_press(e.1).0
        } else {
            v.after_release(e.1)
        }
    }
}

/// The GUI keys pressed in `events` and not let go of since (bit 0 left,
/// bit 1 right).
pub open spec fn gui_keys_down(events: Seq<KeyEvent>) -> u8
    decreases events.len(),
{
    if events.len() == 0 {
        0
    } else {
        let e = events.last();
        let g = gui_keys_down(events.drop_last());
        if is_gui(e.1) {
            if e.0 {
                g | gui_mask(e.1->0)
            } else {
                g & !gui_mask(e.1->0)
            }
        } else {
            g
        }
    }
}

/// Whether some key other than a GUI key went down after the latest GUI
/// key press in `events` (or no GUI key was pressed at all).
pub open spec fn other_key_since_gui(events: Seq<KeyEvent>) -> bool
    decreases events.len(),
{
    if events.len() == 0 {
        true
    } else {
        let e = events.last();
        if e.0 && is_gui(e.1) {
            false
        } else if e.0 {
            true
        } else {
            other_key_since_gui(events.drop_last())
        }
    }
}

proof fn lemma_replay(w: Watch, events: Seq<KeyEvent>)
    requires
        w.gui_held() == 0,
        !w.is_clean(),
    ensures
        replay(w, events).gui_held() == gui_keys_down(events),
        replay(w, events).is_clean() ==> replay(w, events).gui_held() != 0,
        replay(w, events).gui_held() != 0 ==> replay(w, events).is_clean()
            == !other_key_since_gui(events),
    decreases events.len(),
{
    if events.len() > 0 {
        lemma_replay(w, events.drop_last());
        let v = replay(w, events.drop_last());
        let g = v.gui_held();
        let e = events.last();
        if is_gui(e.1) {
            let m = gui_mask(e.1->0);
            assert(m == 1 || m == 2);
            assert((m == 1 || m == 2) ==> g | m != 0) by (bit_vector);
            assert(g & !m != 0 ==> g != 0) by (bit_vector);
        }
    }
}

/// H1 over the whole history: from a fresh watch, whatever keys went down
/// and up, Escape completes the hotkey exactly when a GUI key is held
/// (pressed and not let go of since) and no other key went down after the
/// latest GUI key press. A GUI key itself, or a key with no usage, never
/// completes it.
pub proof fn law_hotkey_over_any_history(w: Watch, events: Seq<KeyEvent>, usage: Option<u8>)
    requires
        w.gui_held() == 0,
        !w.is_clean(),
    ensures
        replay(w, events).after_press(usage).1 == (usage == Some(ESCAPE) && gui_keys_down(events)
            != 0 && !other_key_since_gui(events)),
{
    lemma_replay(w, events);
}

} // verus!
