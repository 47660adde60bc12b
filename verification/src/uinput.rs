//! A virtual keyboard.
use vstd::prelude::*;

verus! {

/// A key of the virtual keyboard.
#[derive(Clone, Copy, Debug, PartialEq, Eq, Structural, Hash)]
pub enum Key {
    A,
    H,
    M,
    Insert,
    LeftCtrl,
    LeftShift,
    Down,
    Left,
    Right,
    Up,
}

/// An event of the virtual keyboard. Those of one key event bear the same time.
#[derive(Clone, Copy, Debug, PartialEq, Eq, Structural)]
pub enum InputEvent {
    Key { key: Key, pressed: bool },
    Synchronize,
}

/// What cannot be done once the device is open.
#[derive(Clone, Copy, Debug, PartialEq, Eq, Structural)]
pub enum UInputError {
    /// "Cannot change name after opening".
    NameAfterOpening,
    /// "Cannot reopen uinput handle".
    Reopen,
}

/// The events of pressing or releasing a key.
pub open spec fn key_event(key: Key, pressed: bool) -> Seq<InputEvent> {
    seq![InputEvent::Key { key, pressed }, InputEvent::Synchronize]
}

/// The events of pressing a key and releasing it.
pub open spec fn press(key: Key) -> Seq<InputEvent> {
    key_event(key, true) + key_event(key, false)
}

/// The virtual keyboard.
#[derive(Debug)]
pub struct UInputDevice {
    name: String,
    open: bool,
}

impl UInputDevice {
    pub closed spec fn device_name(self) -> Seq<char> {
        self.name@
    }

    pub closed spec fn is_opened(self) -> bool {
        self.open
    }

    /// A device without a name that is not open.
    pub fn new() -> (r: UInputDevice)
        ensures
            r.device_name() == Seq::<char>::empty(),
            !r.is_opened(),
    {
        UInputDevice { name: String::new(), open: false }
    }

    pub fn name(&self) -> (r: &str)
        ensures
            r@ == self.device_name(),
    {
        self.name.as_str()
    }

    /// Names the device, unless it is open.
    pub fn set_name(&mut self, name: String) -> (r: Result<(), UInputError>)
        ensures
            final(self).is_opened() == old(self).is_opened(),
            if old(self).is_opened() {
                r == Err::<(), UInputError>(UInputError::NameAfterOpening)
                    && final(self).device_name() == old(self).device_name()
            } else {
                r == Ok::<(), UInputError>(()) && final(self).device_name() == name@
            },
    {
        if self.open {
            return Err(UInputError::NameAfterOpening);
        }
        self.name = name;
        Ok(())
    }

    /// Whether the device may be opened: it is not open yet.
    pub fn check_open(&self) -> (r: Result<(), UInputError>)
        ensures
            r == (if self.is_opened() {
                Err::<(), UInputError>(UInputError::Reopen)
            } else {
                Ok(())
            }),
    {
        if self.open {
            Err(UInputError::Reopen)
        } else {
            Ok(())
        }
    }

    /// Notes whether the device was created; if not, it stays as it was.
    pub fn open(&mut self, created: bool) -> (r: Result<(), UInputError>)
        ensures
            final(self).device_name() == old(self).device_name(),
            if old(self).is_opened() {
                r == Err::<(), UInputError>(UInputError::Reopen) && final(self).is_opened()
            } else {
                r == Ok::<(), UInputError>(()) && final(self).is_opened() == created
            },
    {
        if self.open {
            return Err(UInputError::Reopen);
        }
        self.open = created;
        Ok(())
    }

    fn send_key_event(&self, queue: &mut Vec<InputEvent>, key: Key, pressed: bool)
        ensures
            final(queue)@ == old(queue)@ + key_event(key, pressed),
    {
        queue.push(InputEvent::Key { key, pressed });
        queue.push(InputEvent::Synchronize);
        assert(queue@ =~= old(queue)@ + key_event(key, pressed));
    }

    /// Appends the events of pressing `key`.
    pub fn key_down(&self, queue: &mut Vec<InputEvent>, key: Key)
        ensures
            final(queue)@ == old(queue)@ + key_event(key, true),
    {
        self.send_key_event(queue, key, true);
    }

    /// Appends the events of releasing `key`.
    pub fn key_up(&self, queue: &mut Vec<InputEvent>, key: Key)
        ensures
            final(queue)@ == old(queue)@ + key_event(key, false),
    {
        self.send_key_event(queue, key, false);
    }

    /// Appends the events of pressing `key` and releasing it.
    pub fn key_press(&self, queue: &mut Vec<InputEvent>, key: Key)
        ensures
            final(queue)@ == old(queue)@ + press(key),
    {
        self.send_key_event(queue, key, true);
        self.send_key_event(queue, key, false);
        assert(queue@ =~= old(queue)@ + press(key));
    }
}

/// The keys that are down after some events, given those that were down.
pub open spec fn held_after(down: Set<Key>, events: Seq<InputEvent>) -> Set<Key>
    decreases events.len(),
{
    if events.len() == 0 {
        down
    } else {
        let before = held_after(down, events.drop_last());
        match events.last() {
            InputEvent::Key { key, pressed } => if pressed {
                before.insert(key)
            } else {
                before.remove(key)
            },
            InputEvent::Synchronize => before,
        }
    }
}

/// What is down after two rows of events is what is down after the second row,
/// from where the first one ended.
pub proof fn lemma_held_concat(down: Set<Key>, a: Seq<InputEvent>, b: Seq<InputEvent>)
    ensures
        held_after(down, a + b) == held_after(held_after(down, a), b),
    decreases b.len(),
{
    if b.len() == 0 {
        assert(a + b =~= a);
    } else {
        lemma_held_concat(down, a, b.drop_last());
        assert((a + b).drop_last() =~= a + b.drop_last());
    }
}

pub proof fn lemma_held_key_event(down: Set<Key>, key: Key, pressed: bool)
    ensures
        held_after(down, key_event(key, pressed)) == (if pressed {
            down.insert(key)
        } else {
            down.remove(key)
        }),
{
    let e = key_event(key, pressed);
    assert(e.drop_last() =~= seq![InputEvent::Key { key, pressed }]);
    assert(e.drop_last().drop_last() =~= Seq::<InputEvent>::empty());
    reveal_with_fuel(held_after, 3);
}

pub proof fn lemma_held_press(down: Set<Key>, key: Key)
    ensures
        held_after(down, press(key)) == down.remove(key),
{
    lemma_held_concat(down, key_event(key, true), key_event(key, false));
    lemma_held_key_event(down, key, true);
    lemma_held_key_event(down.insert(key), key, false);
    assert(down.insert(key).remove(key) =~= down.remove(key));
}

} // verus!
