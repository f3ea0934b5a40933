//! The values handed to the users' functions.

use vstd::prelude::*;
use std::cell::Cell;
use std::sync::atomic::AtomicBool;
use std::sync::{Arc, Mutex};

verus! {

/// `std::sync::Mutex`, carried through opaquely.
#[verifier::external_type_specification]
#[verifier::external_body]
#[verifier::reject_recursive_types(T)]
pub struct ExMutex<T: ?Sized>(Mutex<T>);

/// `std::cell::Cell`, carried through opaquely.
#[verifier::external_type_specification]
#[verifier::external_body]
#[verifier::reject_recursive_types(T)]
pub struct ExCell<T: ?Sized>(Cell<T>);

/// What a transformer's routine is resumed with: the transformer's fixed
/// values, and the batch that came in, if one did.
#[derive(Copy, Clone, Default)]
pub struct TransformerContext<D, G> {
    pub globals: G,
    pub data: Option<D>,
}

impl<D, G: Clone> TransformerContext<D, G> {
    /// The context a routine is resumed with: a clone of the transformer's
    /// fixed values, and exactly the batch that was handed over, if any.
    pub fn for_resume(globals: &G, data: Option<D>) -> (c: TransformerContext<D, G>)
        ensures
            cloned(*globals, c.globals),
            c.data == data,
    {
        TransformerContext { globals: globals.clone(), data }
    }
}

/// What an extractor's or a loader's function is called with: the stage's
/// fixed values, the batch shared with the stage's worker, and the stage's
/// signals.
#[derive(Clone, Default)]
#[verifier::reject_recursive_types(D)]
pub struct FnContext<I, D> {
    pub init_data: I,
    pub data: Arc<Mutex<Cell<Vec<D>>>>,
    pub stop_sig: Arc<AtomicBool>,
    pub pause_sig: Option<Arc<AtomicBool>>,
}

} // verus!
