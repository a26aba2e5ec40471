//! What the application knows of the repository.
use vstd::prelude::*;
use crate::git::Status;

verus! {

/// A value that is loaded in the background.
#[derive(Debug)]
pub enum Loadable<T> {
    NotRequested,
    Loading,
    Loaded(T),
    Failed(String),
}

impl<T> Default for Loadable<T> {
    fn default() -> (r: Self)
        ensures
            r is NotRequested,
    {
        Loadable::NotRequested
    }
}

/// The application state.
#[derive(Debug)]
pub struct State {
    pub status: Loadable<Status>,
}

impl Default for State {
    fn default() -> (r: Self)
        ensures
            r.status is NotRequested,
    {
        State { status: Loadable::NotRequested }
    }
}

} // verus!
