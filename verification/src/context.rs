//! The input-state machine: held keys, held buttons and the mouse position,
//! and the folding of raw device records into edge-triggered events.

use vstd::prelude::*;

use crate::input::ButtonSet;
use crate::input::DeviceRecord;
use crate::input::Key;
use crate::input::KeyCode;
use crate::input::MouseButton;
use crate::input::MouseClick;
use crate::input::ScrollDirection;

verus! {

/// An edge-triggered event delivered to the application, in the exact order
/// the device records that caused it were received.
#[derive(Clone, Copy, Debug, PartialEq, Eq, Structural)]
pub enum AppEvent {
    KeyDown(Key),
    KeyUp(Key),
    ButtonDown(MouseButton),
    ButtonUp(MouseButton),
    Click(MouseClick),
    Scroll(ScrollDirection),
}

/// The held keys after a press of `code` was processed: a re-press while the
/// key is already held changes nothing.
pub open spec fn hold(held: Set<KeyCode>, code: KeyCode) -> Set<KeyCode> {
    held.insert(code)
}

/// The held keys after a release of `code`; removing an absent key is safe.
pub open spec fn release(held: Set<KeyCode>, code: KeyCode) -> Set<KeyCode> {
    held.remove(code)
}

/// The events a single key record produces against the given held keys: a
/// key-down on the press edge only (re-presses while held are idempotent and
/// emit nothing), a key-up on every release record.
pub open spec fn key_events(held: Set<KeyCode>, key: Key, pressed: bool) -> Seq<AppEvent> {
    if pressed {
        if held.contains(key.spec_code()) {
            Seq::<AppEvent>::empty()
        } else {
            seq![AppEvent::KeyDown(key)]
        }
    } else {
        seq![AppEvent::KeyUp(key)]
    }
}

/// The button-down events of one mouse record: one for each button that is in
/// `now` but not in `held`, in the fixed order left, middle, right.
pub open spec fn button_down_events(held: ButtonSet, now: ButtonSet) -> Seq<AppEvent> {
    (if now.left && !held.left {
        seq![AppEvent::ButtonDown(MouseButton::Left)]
    } else {
        Seq::<AppEvent>::empty()
    }) + (if now.middle && !held.middle {
        seq![AppEvent::ButtonDown(MouseButton::Middle)]
    } else {
        Seq::<AppEvent>::empty()
    }) + (if now.right && !held.right {
        seq![AppEvent::ButtonDown(MouseButton::Right)]
    } else {
        Seq::<AppEvent>::empty()
    })
}

/// The pair of events a released button produces: the button-up, immediately
/// followed by the synthesized click carrying the position at release time.
pub open spec fn release_pair(b: MouseButton, pos: (i16, i16)) -> Seq<AppEvent> {
    seq![AppEvent::ButtonUp(b), AppEvent::Click(MouseClick::spec_new(b, pos))]
}

/// The button-up and click events of one mouse record: for each button that
/// is in `held` but not in `now`, in the fixed order left, middle, right, the
/// button-up followed immediately by its click.
pub open spec fn button_up_events(held: ButtonSet, now: ButtonSet, pos: (i16, i16)) -> Seq<
    AppEvent,
> {
    (if held.left && !now.left {
        release_pair(MouseButton::Left, pos)
    } else {
        Seq::<AppEvent>::empty()
    }) + (if held.middle && !now.middle {
        release_pair(MouseButton::Middle, pos)
    } else {
        Seq::<AppEvent>::empty()
    }) + (if held.right && !now.right {
        release_pair(MouseButton::Right, pos)
    } else {
        Seq::<AppEvent>::empty()
    })
}

/// All events of one positional mouse record: every button-down first, then
/// every button-up with its click, even when both edges occur in one record.
pub open spec fn button_events(held: ButtonSet, now: ButtonSet, pos: (i16, i16)) -> Seq<AppEvent> {
    button_down_events(held, now) + button_up_events(held, now, pos)
}

/// The events one device record produces against the given state.
pub open spec fn record_events(
    keys: Set<KeyCode>,
    buttons: ButtonSet,
    rec: DeviceRecord,
) -> Seq<AppEvent> {
    match rec {
        DeviceRecord::Key { code, character, pressed } => key_events(
            keys,
            Key::spec_new(code, character),
            pressed,
        ),
        DeviceRecord::Mouse { x, y, buttons: now, wheel } => match wheel {
            Some(d) => seq![AppEvent::Scroll(d)],
            None => button_events(buttons, now, (x, y)),
        },
    }
}

/// The held keys after one record.
pub open spec fn keys_after(keys: Set<KeyCode>, rec: DeviceRecord) -> Set<KeyCode> {
    match rec {
        DeviceRecord::Key { code, character, pressed } => if pressed {
            hold(keys, code)
        } else {
            release(keys, code)
        },
        DeviceRecord::Mouse { .. } => keys,
    }
}

/// The held buttons after one record; a wheel record touches no button state.
pub open spec fn buttons_after(buttons: ButtonSet, rec: DeviceRecord) -> ButtonSet {
    match rec {
        DeviceRecord::Mouse { buttons: now, wheel: None, .. } => now,
        _ => buttons,
    }
}

/// The mouse position after one record; a wheel record does not move it.
pub open spec fn pos_after(pos: (i16, i16), rec: DeviceRecord) -> (i16, i16) {
    match rec {
        DeviceRecord::Mouse { x, y, wheel: None, .. } => (x, y),
        _ => pos,
    }
}

/// The events of a whole batch of records, processed strictly in order, each
/// against the state the records before it left behind.
pub open spec fn batch_events(
    keys: Set<KeyCode>,
    buttons: ButtonSet,
    recs: Seq<DeviceRecord>,
) -> Seq<AppEvent>
    decreases recs.len(),
{
    if recs.len() == 0 {
        Seq::<AppEvent>::empty()
    } else {
        record_events(keys, buttons, recs[0]) + batch_events(
            keys_after(keys, recs[0]),
            buttons_after(buttons, recs[0]),
            recs.drop_first(),
        )
    }
}

/// Pressing a key that is not held, then pressing it again without a release,
/// yields exactly one key-down; the release that follows yields exactly one
/// key-up.
pub proof fn lemma_key_edge_idempotence(held: Set<KeyCode>, key: Key)
    requires
        !held.contains(key.spec_code()),
    ensures
        key_events(held, key, true) + key_events(hold(held, key.spec_code()), key, true) == seq![
            AppEvent::KeyDown(key),
        ],
        key_events(hold(hold(held, key.spec_code()), key.spec_code()), key, false) == seq![
            AppEvent::KeyUp(key),
        ],
{
    assert(hold(held, key.spec_code()).contains(key.spec_code()));
    assert(key_events(held, key, true) + key_events(hold(held, key.spec_code()), key, true) =~= seq![
        AppEvent::KeyDown(key),
    ]);
}

/// What the application may read and mutate between frames: the exit flag,
/// the window title, and the authoritative record of which keys and buttons
/// are currently down and where the mouse last was.  The held sets are
/// mutated only by the record-dispatch methods, never directly.
pub struct Context {
    should_exit: bool,
    title: String,
    down_keys: Vec<KeyCode>,
    down_buttons: ButtonSet,
    mouse_x: i16,
    mouse_y: i16,
}

impl Context {
    /// The set of currently held keys.
    pub closed spec fn keys(&self) -> Set<KeyCode> {
        self.down_keys@.to_set()
    }

    /// The set of currently held mouse buttons.
    pub closed spec fn buttons(&self) -> ButtonSet {
        self.down_buttons
    }

    /// The last known mouse position.
    pub closed spec fn spec_mouse_pos(&self) -> (i16, i16) {
        (self.mouse_x, self.mouse_y)
    }

    /// Whether the application asked to leave the run loop.
    pub closed spec fn exiting(&self) -> bool {
        self.should_exit
    }

    /// The window title the application asked for.
    pub closed spec fn spec_title(&self) -> Seq<char> {
        self.title@
    }

    /// The internal record of held keys lists every key once.
    pub closed spec fn wf(&self) -> bool {
        forall|i: int, j: int|
            0 <= i < j < self.down_keys@.len() ==> self.down_keys@[i] != self.down_keys@[j]
    }

    /// A fresh context: nothing held, mouse at the origin, no exit requested.
    pub fn new() -> (c: Context)
        ensures
            c.wf(),
            !c.exiting(),
            c.keys() == Set::<KeyCode>::empty(),
            c.buttons() == (ButtonSet { left: false, middle: false, right: false }),
            c.spec_mouse_pos() == (0i16, 0i16),
    {
        let c = Context {
            should_exit: false,
            title: "ConGE app".to_owned(),
            down_keys: Vec::new(),
            down_buttons: ButtonSet::empty(),
            mouse_x: 0,
            mouse_y: 0,
        };
        proof {
            assert(c.keys() =~= Set::<KeyCode>::empty());
        }
        c
    }

    /// Asks the run loop to stop after the current iteration.
    pub fn request_exit(&mut self)
        ensures
            final(self).exiting(),
            final(self).spec_title() == old(self).spec_title(),
            final(self).keys() == old(self).keys(),
            final(self).buttons() == old(self).buttons(),
            final(self).spec_mouse_pos() == old(self).spec_mouse_pos(),
            final(self).wf() == old(self).wf(),
    {
        self.should_exit = true;
    }

    /// Whether an exit was requested.
    pub fn should_exit(&self) -> (r: bool)
        ensures
            r == self.exiting(),
    {
        self.should_exit
    }

    pub fn set_title(&mut self, title: String)
        ensures
            final(self).spec_title() == title@,
            final(self).exiting() == old(self).exiting(),
            final(self).keys() == old(self).keys(),
            final(self).buttons() == old(self).buttons(),
            final(self).spec_mouse_pos() == old(self).spec_mouse_pos(),
            final(self).wf() == old(self).wf(),
    {
        self.title = title;
    }

    /// The title to show on the window.
    pub fn title(&self) -> (r: &String)
        ensures
            r@ == self.spec_title(),
    {
        &self.title
    }

    /// Whether `key` is held down right now.  For single presses, handle the
    /// key-up and key-down events instead.
    pub fn is_key_down(&self, key: &KeyCode) -> (r: bool)
        ensures
            r == self.keys().contains(*key),
    {
        let mut i: usize = 0;
        while i < self.down_keys.len()
            invariant
                i <= self.down_keys@.len(),
                forall|j: int| 0 <= j < i ==> self.down_keys@[j] != *key,
            decreases self.down_keys@.len() - i,
        {
            if self.down_keys[i] == *key {
                return true;
            }
            i = i + 1;
        }
        false
    }

    pub fn mouse_pos(&self) -> (p: (i16, i16))
        ensures
            p == self.spec_mouse_pos(),
    {
        (self.mouse_x, self.mouse_y)
    }

    pub fn is_button_down(&self, button: &MouseButton) -> (r: bool)
        ensures
            r == self.buttons().has(*button),
    {
        self.down_buttons.contains(*button)
    }

    pub fn is_shift_down(&self) -> (r: bool)
        ensures
            r == self.keys().contains(KeyCode::LeftShift),
    {
        self.is_key_down(&KeyCode::LeftShift)
    }

    pub fn is_ctrl_down(&self) -> (r: bool)
        ensures
            r == self.keys().contains(KeyCode::LeftCtrl),
    {
        self.is_key_down(&KeyCode::LeftCtrl)
    }

    pub fn is_alt_down(&self) -> (r: bool)
        ensures
            r == self.keys().contains(KeyCode::LeftAlt),
    {
        self.is_key_down(&KeyCode::LeftAlt)
    }

    /// Records `key` as held.
    pub fn hold_key(&mut self, key: &KeyCode)
        requires
            old(self).wf(),
        ensures
            final(self).wf(),
            final(self).keys() == hold(old(self).keys(), *key),
            final(self).exiting() == old(self).exiting(),
            final(self).spec_title() == old(self).spec_title(),
            final(self).buttons() == old(self).buttons(),
            final(self).spec_mouse_pos() == old(self).spec_mouse_pos(),
    {
        if !self.is_key_down(key) {
            self.down_keys.push(*key);
            proof {
                broadcast use vstd::seq_lib::lemma_seq_contains_after_push;

                assert(self.keys() =~= hold(old(self).keys(), *key));
            }
        } else {
            proof {
                assert(self.keys() =~= hold(old(self).keys(), *key));
            }
        }
    }

    /// Records `key` as no longer held; releasing an absent key is safe.
    pub fn release_key(&mut self, key: &KeyCode)
        requires
            old(self).wf(),
        ensures
            final(self).wf(),
            final(self).keys() == release(old(self).keys(), *key),
            final(self).exiting() == old(self).exiting(),
            final(self).spec_title() == old(self).spec_title(),
            final(self).buttons() == old(self).buttons(),
            final(self).spec_mouse_pos() == old(self).spec_mouse_pos(),
    {
        let mut i: usize = 0;
        while i < self.down_keys.len()
            invariant
                old(self).wf(),
                i <= self.down_keys@.len(),
                self.down_keys == old(self).down_keys,
                self.should_exit == old(self).should_exit,
                self.title == old(self).title,
                self.down_buttons == old(self).down_buttons,
                self.mouse_x == old(self).mouse_x,
                self.mouse_y == old(self).mouse_y,
                forall|j: int| 0 <= j < i ==> self.down_keys@[j] != *key,
            decreases self.down_keys@.len() - i,
        {
            if self.down_keys[i] == *key {
                self.down_keys.remove(i);
                proof {
                    let okeys = old(self).down_keys@;
                    let nkeys = self.down_keys@;
                    okeys.remove_ensures(i as int);
                    assert forall|k: KeyCode|
                        nkeys.contains(k) <==> (okeys.contains(k) && k != *key) by {
                        if nkeys.contains(k) {
                            let j = choose|j: int| 0 <= j < nkeys.len() && nkeys[j] == k;
                            if j < i {
                                assert(okeys[j] == k);
                            } else {
                                assert(okeys[j + 1] == k);
                            }
                        }
                        if okeys.contains(k) && k != *key {
                            let j = choose|j: int| 0 <= j < okeys.len() && okeys[j] == k;
                            if j < i {
                                assert(nkeys[j] == k);
                            } else {
                                assert(nkeys[j - 1] == k);
                            }
                        }
                    }
                    assert(self.keys() =~= release(old(self).keys(), *key));
                }
                return ;
            }
            i = i + 1;
        }
        proof {
            assert(self.keys() =~= release(old(self).keys(), *key));
        }
    }

    /// Moves the remembered mouse position.
    pub fn update_mouse_pos(&mut self, x: i16, y: i16)
        ensures
            final(self).spec_mouse_pos() == (x, y),
            final(self).exiting() == old(self).exiting(),
            final(self).spec_title() == old(self).spec_title(),
            final(self).keys() == old(self).keys(),
            final(self).buttons() == old(self).buttons(),
            final(self).wf() == old(self).wf(),
    {
        self.mouse_x = x;
        self.mouse_y = y;
    }

    /// Replaces the held-button set with what the device reports and returns
    /// the edge events: every button-down first, then for each released
    /// button the button-up followed by its click at `mouse_pos`.
    pub fn set_buttons(&mut self, buttons: ButtonSet, mouse_pos: (i16, i16)) -> (events: Vec<
        AppEvent,
    >)
        ensures
            events@ == button_events(old(self).buttons(), buttons, mouse_pos),
            final(self).buttons() == buttons,
            final(self).exiting() == old(self).exiting(),
            final(self).spec_title() == old(self).spec_title(),
            final(self).keys() == old(self).keys(),
            final(self).spec_mouse_pos() == old(self).spec_mouse_pos(),
            final(self).wf() == old(self).wf(),
    {
        let held = self.down_buttons;
        self.down_buttons = buttons;
        let mut events: Vec<AppEvent> = Vec::new();
        if buttons.left && !held.left {
            events.push(AppEvent::ButtonDown(MouseButton::Left));
        }
        if buttons.middle && !held.middle {
            events.push(AppEvent::ButtonDown(MouseButton::Middle));
        }
        if buttons.right && !held.right {
            events.push(AppEvent::ButtonDown(MouseButton::Right));
        }
        proof {
            assert(events@ =~= button_down_events(held, buttons));
        }
        if held.left && !buttons.left {
            events.push(AppEvent::ButtonUp(MouseButton::Left));
            events.push(AppEvent::Click(MouseClick::new(MouseButton::Left, mouse_pos)));
        }
        if held.middle && !buttons.middle {
            events.push(AppEvent::ButtonUp(MouseButton::Middle));
            events.push(AppEvent::Click(MouseClick::new(MouseButton::Middle, mouse_pos)));
        }
        if held.right && !buttons.right {
            events.push(AppEvent::ButtonUp(MouseButton::Right));
            events.push(AppEvent::Click(MouseClick::new(MouseButton::Right, mouse_pos)));
        }
        proof {
            assert(events@ =~= button_events(held, buttons, mouse_pos));
        }
        events
    }

    /// Feeds one normalized device record through the state machine and
    /// returns the events it produces, in order.
    pub fn apply_record(&mut self, rec: DeviceRecord) -> (events: Vec<AppEvent>)
        requires
            old(self).wf(),
        ensures
            final(self).wf(),
            events@ == record_events(old(self).keys(), old(self).buttons(), rec),
            final(self).keys() == keys_after(old(self).keys(), rec),
            final(self).buttons() == buttons_after(old(self).buttons(), rec),
            final(self).spec_mouse_pos() == pos_after(old(self).spec_mouse_pos(), rec),
            final(self).exiting() == old(self).exiting(),
            final(self).spec_title() == old(self).spec_title(),
    {
        match rec {
            DeviceRecord::Key { code, character, pressed } => {
                let key = Key::new(code, character);
                let mut events: Vec<AppEvent> = Vec::new();
                if pressed {
                    if !self.is_key_down(&code) {
                        events.push(AppEvent::KeyDown(key));
                    }
                    self.hold_key(&code);
                } else {
                    self.release_key(&code);
                    events.push(AppEvent::KeyUp(key));
                }
                proof {
                    assert(events@ =~= record_events(old(self).keys(), old(self).buttons(), rec));
                }
                events
            },
            DeviceRecord::Mouse { x, y, buttons, wheel } => {
                match wheel {
                    Some(d) => {
                        let mut events: Vec<AppEvent> = Vec::new();
                        events.push(AppEvent::Scroll(d));
                        proof {
                            assert(events@ =~= record_events(
                                old(self).keys(),
                                old(self).buttons(),
                                rec,
                            ));
                        }
                        events
                    },
                    None => {
                        self.update_mouse_pos(x, y);
                        let events = self.set_buttons(buttons, (x, y));
                        events
                    },
                }
            },
        }
    }

    /// Feeds a whole batch of records through the state machine, strictly in
    /// the order received, and returns every event produced.
    pub fn handle_records(&mut self, records: &Vec<DeviceRecord>) -> (events: Vec<AppEvent>)
        requires
            old(self).wf(),
        ensures
            final(self).wf(),
            events@ == batch_events(old(self).keys(), old(self).buttons(), records@),
            final(self).exiting() == old(self).exiting(),
            final(self).spec_title() == old(self).spec_title(),
    {
        let mut events: Vec<AppEvent> = Vec::new();
        let mut i: usize = 0;
        proof {
            assert(records@.skip(0) =~= records@);
        }
        while i < records.len()
            invariant
                self.wf(),
                i <= records@.len(),
                self.exiting() == old(self).exiting(),
                self.spec_title() == old(self).spec_title(),
                events@ + batch_events(self.keys(), self.buttons(), records@.skip(i as int))
                    == batch_events(old(self).keys(), old(self).buttons(), records@),
            decreases records@.len() - i,
        {
            let ghost pre_keys = self.keys();
            let ghost pre_buttons = self.buttons();
            let mut chunk = self.apply_record(records[i]);
            proof {
                assert(records@.skip(i as int).drop_first() =~= records@.skip(i as int + 1));
                assert(records@.skip(i as int)[0] == records@[i as int]);
            }
            events.append(&mut chunk);
            i = i + 1;
        }
        proof {
            assert(records@.skip(records@.len() as int) =~= Seq::<DeviceRecord>::empty());
            assert(events@ =~= batch_events(old(self).keys(), old(self).buttons(), records@));
        }
        events
    }
}

} // verus!
