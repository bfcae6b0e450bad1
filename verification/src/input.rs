//! Keyboard and mouse state between frames: which buttons are down, and
//! which went down or came up since the last frame.

use vstd::prelude::*;
use crate::color::ZERO;

verus! {

/// A set of buttons that are held down, each known by its name.
#[derive(Debug)]
pub struct Buttons {
    down: Vec<String>,
}

impl View for Buttons {
    type V = Set<Seq<char>>;

    closed spec fn view(&self) -> Set<Seq<char>> {
        Set::new(
            |name: Seq<char>|
                exists|i: int| 0 <= i < self.down@.len() && (#[trigger] self.down@[i])@ == name,
        )
    }
}

impl Buttons {
    /// No name is kept twice.
    pub closed spec fn wf(&self) -> bool {
        forall|i: int, j: int|
            0 <= i < j < self.down@.len() ==> (#[trigger] self.down@[i])@ != (
            #[trigger] self.down@[j])@
    }

    /// No button is down.
    pub fn new() -> (buttons: Buttons)
        ensures
            buttons.wf(),
            buttons@ == Set::<Seq<char>>::empty(),
    {
        let buttons = Buttons { down: Vec::new() };
        assert(buttons@ =~= Set::<Seq<char>>::empty());
        buttons
    }

    /// Where `name` is kept, if it is.
    fn position(&self, name: &str) -> (found: Option<usize>)
        ensures
            found is Some <==> self@.contains(name@),
            found matches Some(i) ==> i < self.down@.len() && self.down@[i as int]@ == name@,
    {
        let key = name.to_owned();
        let mut i: usize = 0;
        while i < self.down.len()
            invariant
                i <= self.down@.len(),
                key@ == name@,
                forall|j: int| 0 <= j < i ==> (#[trigger] self.down@[j])@ != name@,
            decreases self.down@.len() - i,
        {
            if self.down[i] == key {
                return Some(i);
            }
            i += 1;
        }
        None
    }

    /// Whether the button `name` is down.
    pub fn is_down(&self, name: &str) -> (down: bool)
        ensures
            down == self@.contains(name@),
    {
        self.position(name).is_some()
    }

    /// Records that the button `name` went down or came up.
    pub fn set(&mut self, name: &str, pressed: bool)
        requires
            old(self).wf(),
        ensures
            final(self).wf(),
            final(self)@ == if pressed {
                old(self)@.insert(name@)
            } else {
                old(self)@.remove(name@)
            },
    {
        let found = self.position(name);
        match found {
            Some(i) => {
                if !pressed {
                    let ghost before = self.down@;
                    self.down.remove(i);
                    proof {
                        assert forall|n: Seq<char>| self@.contains(n) == old(self)@.remove(
                            name@,
                        ).contains(n) by {
                            if self@.contains(n) {
                                let k = choose|k: int|
                                    0 <= k < self.down@.len() && (#[trigger] self.down@[k])@ == n;
                                if k < i {
                                    assert(before[k]@ == n);
                                } else {
                                    assert(before[k + 1]@ == n);
                                }
                            }
                            if old(self)@.remove(name@).contains(n) {
                                let k = choose|k: int|
                                    0 <= k < before.len() && (#[trigger] before[k])@ == n;
                                if k < i {
                                    assert(self.down@[k]@ == n);
                                } else {
                                    assert(self.down@[k - 1]@ == n);
                                }
                            }
                        }
                        assert(self@ =~= old(self)@.remove(name@));
                    }
                } else {
                    assert(self@ =~= old(self)@.insert(name@));
                }
            },
            None => {
                if pressed {
                    let ghost before = self.down@;
                    self.down.push(name.to_owned());
                    proof {
                        assert(self.down@[before.len() as int]@ == name@);
                        assert forall|n: Seq<char>| self@.contains(n) == old(self)@.insert(
                            name@,
                        ).contains(n) by {
                            if old(self)@.contains(n) {
                                let k = choose|k: int|
                                    0 <= k < before.len() && (#[trigger] before[k])@ == n;
                                assert(self.down@[k]@ == n);
                            }
                        }
                        assert(self@ =~= old(self)@.insert(name@));
                    }
                } else {
                    assert(self@ =~= old(self)@.remove(name@));
                }
            },
        }
    }

    /// A copy of the set.
    pub fn copy(&self) -> (copy: Buttons)
        ensures
            copy@ == self@,
            self.wf() ==> copy.wf(),
    {
        let mut down: Vec<String> = Vec::new();
        let mut i: usize = 0;
        while i < self.down.len()
            invariant
                i <= self.down@.len(),
                down@.len() == i,
                forall|j: int| 0 <= j < i ==> (#[trigger] down@[j])@ == self.down@[j]@,
            decreases self.down@.len() - i,
        {
            down.push(self.down[i].clone());
            i += 1;
        }
        let copy = Buttons { down };
        proof {
            assert forall|n: Seq<char>| copy@.contains(n) == self@.contains(n) by {
                if copy@.contains(n) {
                    let k = choose|k: int|
                        0 <= k < copy.down@.len() && (#[trigger] copy.down@[k])@ == n;
                    assert(self.down@[k]@ == n);
                }
                if self@.contains(n) {
                    let k = choose|k: int|
                        0 <= k < self.down@.len() && (#[trigger] self.down@[k])@ == n;
                    assert(copy.down@[k]@ == n);
                }
            }
            assert(copy@ =~= self@);
        }
        copy
    }
}

/// The state of an [`Input`] as contracts speak of it.
pub struct InputView {
    /// The keys that were down when the last frame ended.
    pub prev_keys: Set<Seq<char>>,
    /// The keys that are down.
    pub keys: Set<Seq<char>>,
    /// The mouse buttons that were down when the last frame ended.
    pub prev_mouse: Set<Seq<char>>,
    /// The mouse buttons that are down.
    pub mouse: Set<Seq<char>>,
    /// The position of the cursor.
    pub mouse_pos: [u32; 2],
    /// How far the wheel was turned during this frame.
    pub mouse_scroll: [u32; 2],
}

impl InputView {
    /// The state before any event.
    pub open spec fn new() -> InputView {
        InputView {
            prev_keys: Set::empty(),
            keys: Set::empty(),
            prev_mouse: Set::empty(),
            mouse: Set::empty(),
            mouse_pos: [ZERO, ZERO],
            mouse_scroll: [ZERO, ZERO],
        }
    }

    /// Whether the key `code` went down during this frame: it is down and
    /// was not when the last frame ended.
    pub open spec fn key_pressed(self, code: Seq<char>) -> bool {
        self.keys.contains(code) && !self.prev_keys.contains(code)
    }

    /// Whether the key `code` came up during this frame.
    pub open spec fn key_released(self, code: Seq<char>) -> bool {
        !self.keys.contains(code) && self.prev_keys.contains(code)
    }

    /// Whether the mouse button `button` went down during this frame.
    pub open spec fn mouse_pressed(self, button: Seq<char>) -> bool {
        self.mouse.contains(button) && !self.prev_mouse.contains(button)
    }

    /// Whether the mouse button `button` came up during this frame.
    pub open spec fn mouse_released(self, button: Seq<char>) -> bool {
        !self.mouse.contains(button) && self.prev_mouse.contains(button)
    }

    /// The state at the start of the next frame: what is down now is what
    /// was down before, and the wheel has not been turned yet.
    pub open spec fn ticked(self) -> InputView {
        InputView {
            prev_keys: self.keys,
            prev_mouse: self.mouse,
            mouse_scroll: [ZERO, ZERO],
            ..self
        }
    }
}

/// Keyboard and mouse as the frame loop reports them. Positions and scroll
/// amounts are binary32 bit patterns.
#[derive(Debug)]
pub struct Input {
    prev_keys: Buttons,
    keys: Buttons,
    prev_mouse: Buttons,
    mouse: Buttons,
    mouse_pos: [u32; 2],
    mouse_scroll: [u32; 2],
}

impl View for Input {
    type V = InputView;

    closed spec fn view(&self) -> InputView {
        InputView {
            prev_keys: self.prev_keys@,
            keys: self.keys@,
            prev_mouse: self.prev_mouse@,
            mouse: self.mouse@,
            mouse_pos: self.mouse_pos,
            mouse_scroll: self.mouse_scroll,
        }
    }
}

impl Input {
    /// The sets of buttons are well formed.
    pub closed spec fn wf(&self) -> bool {
        self.prev_keys.wf() && self.keys.wf() && self.prev_mouse.wf() && self.mouse.wf()
    }

    /// Nothing is down, the cursor is at the origin.
    pub fn new() -> (input: Input)
        ensures
            input.wf(),
            input@ == InputView::new(),
    {
        Input {
            prev_keys: Buttons::new(),
            keys: Buttons::new(),
            prev_mouse: Buttons::new(),
            mouse: Buttons::new(),
            mouse_pos: [ZERO, ZERO],
            mouse_scroll: [ZERO, ZERO],
        }
    }

    /// Ends the frame: from now on, a button counts as pressed or released
    /// only if it changes after this call.
    pub fn tick(&mut self)
        requires
            old(self).wf(),
        ensures
            final(self).wf(),
            final(self)@ == old(self)@.ticked(),
    {
        self.prev_keys = self.keys.copy();
        self.prev_mouse = self.mouse.copy();
        self.mouse_scroll = [ZERO, ZERO];
    }

    /// The key `code` went down or came up.
    pub fn key_event(&mut self, code: &str, pressed: bool)
        requires
            old(self).wf(),
        ensures
            final(self).wf(),
            final(self)@ == (InputView {
                keys: if pressed {
                    old(self)@.keys.insert(code@)
                } else {
                    old(self)@.keys.remove(code@)
                },
                ..old(self)@
            }),
    {
        self.keys.set(code, pressed);
    }

    /// The cursor moved to `position`.
    pub fn mouse_motion_event(&mut self, position: [u32; 2])
        ensures
            final(self).wf() == old(self).wf(),
            final(self)@ == (InputView { mouse_pos: position, ..old(self)@ }),
    {
        self.mouse_pos = position;
    }

    /// The mouse button `button` went down or came up.
    pub fn click_event(&mut self, button: &str, pressed: bool)
        requires
            old(self).wf(),
        ensures
            final(self).wf(),
            final(self)@ == (InputView {
                mouse: if pressed {
                    old(self)@.mouse.insert(button@)
                } else {
                    old(self)@.mouse.remove(button@)
                },
                ..old(self)@
            }),
    {
        self.mouse.set(button, pressed);
    }

    /// The wheel was turned by `delta`.
    pub fn scroll_event(&mut self, delta: [u32; 2])
        ensures
            final(self).wf() == old(self).wf(),
            final(self)@ == (InputView { mouse_scroll: delta, ..old(self)@ }),
    {
        self.mouse_scroll = delta;
    }

    /// Whether the key `code` is down.
    pub fn key_down(&self, code: &str) -> (down: bool)
        ensures
            down == self@.keys.contains(code@),
    {
        self.keys.is_down(code)
    }

    /// Whether the key `code` went down during this frame.
    pub fn key_pressed(&self, code: &str) -> (pressed: bool)
        ensures
            pressed == self@.key_pressed(code@),
    {
        let previous = self.prev_keys.is_down(code);
        let current = self.keys.is_down(code);
        current && !previous
    }

    /// Whether the key `code` came up during this frame.
    pub fn key_released(&self, code: &str) -> (released: bool)
        ensures
            released == self@.key_released(code@),
    {
        let previous = self.prev_keys.is_down(code);
        let current = self.keys.is_down(code);
        !current && previous
    }

    /// The position of the cursor.
    pub fn mouse_pos(&self) -> (position: [u32; 2])
        ensures
            position == self@.mouse_pos,
    {
        self.mouse_pos
    }

    /// Whether the mouse button `button` is down.
    pub fn mouse_down(&self, button: &str) -> (down: bool)
        ensures
            down == self@.mouse.contains(button@),
    {
        self.mouse.is_down(button)
    }

    /// Whether the mouse button `button` went down during this frame.
    pub fn mouse_pressed(&self, button: &str) -> (pressed: bool)
        ensures
            pressed == self@.mouse_pressed(button@),
    {
        let previous = self.prev_mouse.is_down(button);
        let current = self.mouse.is_down(button);
        current && !previous
    }

    /// Whether the mouse button `button` came up during this frame.
    pub fn mouse_released(&self, button: &str) -> (released: bool)
        ensures
            released == self@.mouse_released(button@),
    {
        let previous = self.prev_mouse.is_down(button);
        let current = self.mouse.is_down(button);
        !current && previous
    }

    /// How far the wheel was turned during this frame.
    pub fn scroll(&self) -> (delta: [u32; 2])
        ensures
            delta == self@.mouse_scroll,
    {
        self.mouse_scroll
    }
}

/// Right after a tick nothing counts as pressed or released, whatever is
/// held down.
pub proof fn lemma_tick_settles(input: InputView, name: Seq<char>)
    ensures
        !input.ticked().key_pressed(name),
        !input.ticked().key_released(name),
        !input.ticked().mouse_pressed(name),
        !input.ticked().mouse_released(name),
        input.ticked().keys == input.keys,
        input.ticked().mouse == input.mouse,
{
}

} // verus!
