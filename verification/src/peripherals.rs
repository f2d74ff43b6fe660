//! The machine's peripherals: the channel to the display, the channel on
//! which the display answers a draw, the channel from the keypad, and the
//! source of random bytes.
//!
//! What a peripheral hands over depends on the other side, so nothing is
//! claimed of it here. The machine's own functions take what was handed
//! over as an argument.

use vstd::prelude::*;

use crate::screen::ScreenUpdate;

verus! {

/// The sending end of a channel of the standard library.
#[verifier::external_type_specification]
#[verifier::external_body]
#[verifier::reject_recursive_types(T)]
pub struct ExSender<T>(std::sync::mpsc::Sender<T>);

/// The receiving end of a channel of the standard library.
#[verifier::external_type_specification]
#[verifier::external_body]
#[verifier::reject_recursive_types(T)]
pub struct ExReceiver<T>(std::sync::mpsc::Receiver<T>);

/// Calls `std::sync::mpsc::Sender::send` with `update` and tells whether
/// the channel took it. It does not when the receiving end is gone; whether
/// it is gone is not known beforehand, so the result may be either.
#[verifier::external_body]
pub(crate) fn send_update(display: &std::sync::mpsc::Sender<ScreenUpdate>, update: ScreenUpdate) -> (sent:
    bool) {
    display.send(update).is_ok()
}

/// Calls `std::sync::mpsc::Receiver::recv`, which waits for the next value
/// on the channel. `None` stands for its error: the sending end is gone and
/// nothing is left to receive. Any reply may come back, or none.
#[verifier::external_body]
pub(crate) fn await_collision(collision: &std::sync::mpsc::Receiver<bool>) -> (reply: Option<bool>) {
    collision.recv().ok()
}

/// Calls `std::sync::mpsc::Receiver::try_iter`, which hands out the values
/// that wait on the channel without waiting for more, and gives them in the
/// order they were sent. How many wait, and which, is up to the sender.
#[verifier::external_body]
pub(crate) fn pending_keys(keypad: &std::sync::mpsc::Receiver<u16>) -> (pending: Vec<u16>) {
    keypad.try_iter().collect()
}

/// Calls `fastrand::u8` over the whole range of bytes, with the generator
/// of the calling thread. Any byte may come back.
#[verifier::external_body]
pub(crate) fn random_byte() -> (byte: u8) {
    fastrand::u8(..)
}

} // verus!
