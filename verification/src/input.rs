//! Keyboard state: which keys are held, and which presses were already
//! answered.

use vstd::prelude::*;

verus! {

/// Number of key codes that the keyboard state tracks.
pub const KEY_COUNT: usize = 1024;

/// Key code of the escape key.
pub const KEY_ESCAPE: i32 = 256;

/// What happened to a key.
#[derive(Clone, Copy, Debug, PartialEq, Eq, Structural)]
pub enum KeyAction {
    Release,
    Press,
    Repeat,
}

/// The held keys and the presses that an action has already consumed.
pub struct Keyboard {
    pub keys: Vec<bool>,
    pub keys_processed: Vec<bool>,
}

/// Whether `code` is a key code that the keyboard state tracks.
pub open spec fn in_range(code: int) -> bool {
    0 <= code < KEY_COUNT as int
}

/// The flags after `action` arrives for key `code`: a press sets the key,
/// a release clears the key and its processed mark, anything else and any
/// untracked code leaves the flags as they are.
pub open spec fn flags_after_event(flags: Seq<bool>, processed: Seq<bool>, code: int, action: KeyAction)
    -> (Seq<bool>, Seq<bool>)
{
    if !in_range(code) {
        (flags, processed)
    } else {
        match action {
            KeyAction::Press => (flags.update(code, true), processed),
            KeyAction::Release => (flags.update(code, false), processed.update(code, false)),
            KeyAction::Repeat => (flags, processed),
        }
    }
}

impl Keyboard {
    /// Both flag arrays cover every tracked key code.
    pub open spec fn wf(&self) -> bool {
        &&& self.keys@.len() == KEY_COUNT as nat
        &&& self.keys_processed@.len() == KEY_COUNT as nat
    }

    /// True when `code` is tracked and currently held.
    pub open spec fn is_down(&self, code: int) -> bool {
        in_range(code) && self.keys@[code]
    }

    /// True when `code` is held and its press has not been consumed yet.
    pub open spec fn is_fresh(&self, code: int) -> bool {
        in_range(code) && self.keys@[code] && !self.keys_processed@[code]
    }

    /// A keyboard with no key held.
    pub fn new() -> (kb: Keyboard)
        ensures
            kb.wf(),
            kb.keys@ == Seq::new(KEY_COUNT as nat, |c: int| false),
            kb.keys_processed@ == Seq::new(KEY_COUNT as nat, |c: int| false),
    {
        let mut keys: Vec<bool> = Vec::new();
        let mut keys_processed: Vec<bool> = Vec::new();
        let mut i: usize = 0;
        while i < KEY_COUNT
            invariant
                i <= KEY_COUNT,
                keys@.len() == i as nat,
                keys_processed@.len() == i as nat,
                forall|c: int| 0 <= c < i ==> !keys@[c] && !keys_processed@[c],
            decreases KEY_COUNT - i,
        {
            keys.push(false);
            keys_processed.push(false);
            i += 1;
        }
        proof {
            assert(keys@ =~= Seq::new(KEY_COUNT as nat, |c: int| false));
            assert(keys_processed@ =~= Seq::new(KEY_COUNT as nat, |c: int| false));
        }
        Keyboard { keys, keys_processed }
    }

    /// Records a key event and says whether it asks to close the window,
    /// which a press of the escape key does, and nothing else.
    pub fn key_callback(&mut self, code: i32, action: KeyAction) -> (close: bool)
        requires
            old(self).wf(),
        ensures
            final(self).wf(),
            close == (code == KEY_ESCAPE && action == KeyAction::Press),
            (final(self).keys@, final(self).keys_processed@) == flags_after_event(
                old(self).keys@,
                old(self).keys_processed@,
                code as int,
                action,
            ),
    {
        let close = code == KEY_ESCAPE && action == KeyAction::Press;
        if 0 <= code && code < 1024 {
            let idx: usize = code as usize;
            match action {
                KeyAction::Press => {
                    self.keys.set(idx, true);
                },
                KeyAction::Release => {
                    self.keys.set(idx, false);
                    self.keys_processed.set(idx, false);
                },
                KeyAction::Repeat => {},
            }
        }
        close
    }

    /// Whether key `code` is held; an untracked code is never held.
    pub fn is_pressed(&self, code: i32) -> (down: bool)
        requires
            self.wf(),
        ensures
            down == self.is_down(code as int),
    {
        if 0 <= code && code < 1024 {
            self.keys[code as usize]
        } else {
            false
        }
    }

    /// Consumes the current press of key `code`: answers true for a held key
    /// whose press was not consumed before, and marks it consumed, so that
    /// one press triggers its action once however long the key is held.
    pub fn take_press(&mut self, code: i32) -> (fresh: bool)
        requires
            old(self).wf(),
        ensures
            final(self).wf(),
            fresh == old(self).is_fresh(code as int),
            final(self).keys@ == old(self).keys@,
            final(self).keys_processed@ == if fresh {
                old(self).keys_processed@.update(code as int, true)
            } else {
                old(self).keys_processed@
            },
    {
        if 0 <= code && code < 1024 {
            let idx: usize = code as usize;
            if self.keys[idx] && !self.keys_processed[idx] {
                self.keys_processed.set(idx, true);
                return true;
            }
        }
        false
    }
}

} // verus!
