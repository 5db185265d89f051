//! The channel types of the standard library, made known to the verifier.

use vstd::prelude::*;
use std::sync::mpsc::{Receiver, Sender};

verus! {

/// `std::sync::mpsc::Sender`: the sending half of a channel. Nothing is
/// known of what it holds.
#[verifier::external_type_specification]
#[verifier::external_body]
#[verifier::reject_recursive_types(T)]
pub struct ExSender<T>(Sender<T>);

/// `std::sync::mpsc::Receiver`: the receiving half of a channel. Nothing is
/// known of what it holds.
#[verifier::external_type_specification]
#[verifier::external_body]
#[verifier::reject_recursive_types(T)]
pub struct ExReceiver<T>(Receiver<T>);

/// `std::sync::mpsc::channel` makes a new channel and returns its two
/// halves. Nothing is claimed of them.
pub assume_specification<T>[ std::sync::mpsc::channel::<T> ]() -> (halves: (Sender<T>, Receiver<T>));

/// `Sender::clone` makes another sending half of the same channel. Nothing
/// is claimed of it.
pub assume_specification<T>[ <Sender<T> as Clone>::clone ](sender: &Sender<T>) -> (copy: Sender<T>);

} // verus!
