//! Key input state: which of the 16 keys are currently down, plus at most one
//! pending one-shot wait registration. The registration is fulfilled by the
//! first key pressed after it was made — any key, not a specific one — and
//! the delivered key index is then collected by the execution engine.

use vstd::prelude::*;

verus! {

/// Ghost model of the key input state.
pub ghost struct KbM {
    /// Bit `k` is set iff key `k` is currently down.
    pub keys: u16,
    /// Whether a wait registration is outstanding and unfulfilled.
    pub waiting: bool,
    /// A fulfilled wait: the key index waiting to be collected, if any.
    pub delivered: Option<u8>,
}

impl KbM {
    /// A delivered key index is always one of the 16 keys.
    pub open spec fn wf(&self) -> bool {
        match self.delivered {
            Some(k) => k < 16,
            None => true,
        }
    }
}

/// Tracks the currently-down keys and the one-shot wait registration.
pub struct Keyboard {
    keys_pressed: u16,
    waiting: bool,
    delivered: Option<u8>,
}

impl View for Keyboard {
    type V = KbM;

    closed spec fn view(&self) -> KbM {
        KbM { keys: self.keys_pressed, waiting: self.waiting, delivered: self.delivered }
    }
}

impl Default for Keyboard {
    /// No key down, no wait outstanding.
    fn default() -> (r: Keyboard)
        ensures
            r@ == (KbM { keys: 0, waiting: false, delivered: None }),
    {
        Keyboard { keys_pressed: 0, waiting: false, delivered: None }
    }
}

impl Keyboard {
    /// No key down, no wait outstanding.
    pub fn new() -> (r: Keyboard)
        ensures
            r@ == (KbM { keys: 0, waiting: false, delivered: None }),
    {
        Keyboard { keys_pressed: 0, waiting: false, delivered: None }
    }

    /// Whether key `key` is currently down.
    pub fn is_pressed(&self, key: u8) -> (r: bool)
        requires
            key < 16,
        ensures
            r == (self@.keys & (1u16 << key) != 0),
    {
        self.keys_pressed & (1u16 << key) != 0
    }

    /// Mark key `key` as down. If a wait registration is outstanding, this
    /// key fulfills it: the key index is held for the engine to collect and
    /// the registration is cleared.
    pub fn key_down(&mut self, key: u8)
        requires
            key < 16,
        ensures
            final(self)@.keys == old(self)@.keys | (1u16 << key),
            final(self)@.waiting == false,
            final(self)@.delivered == if old(self)@.waiting {
                Some(key)
            } else {
                old(self)@.delivered
            },
            old(self)@.wf() ==> final(self)@.wf(),
    {
        self.keys_pressed = self.keys_pressed | (1u16 << key);
        if self.waiting {
            self.delivered = Some(key);
            self.waiting = false;
        }
    }

    /// Mark key `key` as up.
    pub fn key_up(&mut self, key: u8)
        requires
            key < 16,
        ensures
            final(self)@.keys == old(self)@.keys & (0xFFFFu16 ^ (1u16 << key)),
            final(self)@.waiting == old(self)@.waiting,
            final(self)@.delivered == old(self)@.delivered,
    {
        self.keys_pressed = self.keys_pressed & (0xFFFF ^ (1u16 << key));
    }

    /// Register a one-shot wait for the next keypress, superseding any prior
    /// registration that was not yet collected.
    pub fn set_callback(&mut self)
        ensures
            final(self)@.keys == old(self)@.keys,
            final(self)@.waiting == true,
            final(self)@.delivered == None::<u8>,
    {
        self.waiting = true;
        self.delivered = None;
    }

    /// Whether a fulfilled wait is ready to be collected.
    pub fn has_delivery(&self) -> (r: bool)
        ensures
            r == (self@.delivered matches Some(_)),
    {
        match self.delivered {
            Some(_) => true,
            None => false,
        }
    }

    /// Collect the key that fulfilled the wait registration, if any.
    pub fn take_delivered(&mut self) -> (r: Option<u8>)
        ensures
            r == old(self)@.delivered,
            final(self)@.delivered == None::<u8>,
            final(self)@.keys == old(self)@.keys,
            final(self)@.waiting == old(self)@.waiting,
    {
        let r = self.delivered;
        self.delivered = None;
        r
    }
}

} // verus!
