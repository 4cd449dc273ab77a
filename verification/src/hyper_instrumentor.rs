//! The instrumentor for the `hyper` HTTP library.

use vstd::prelude::*;
use crate::errors::Error;
use crate::events::Event;
use crate::instrumentors::Instrumentor;
use crate::process::TargetDetails;

verus! {

/// The name of the library that [`HyperInstrumentor`] observes.
pub open spec fn hyper_library() -> Seq<char> {
    "hyper"@
}

/// The functions that [`HyperInstrumentor`] observes, by readable name.
pub open spec fn hyper_functions() -> Seq<Seq<char>> {
    seq![
        "hyper::proto::h1::dispatch::Dispatcher<D,Bs,I,T>::poll_read"@,
        "hyper::server::conn::Http::serve_connection"@,
        "<hyper::server::server::Server<I,S,E>>::serve"@,
    ]
}

/// Observes the server side of `hyper`. It declares its functions and keeps
/// track of being loaded; it attaches to nothing and records no event.
pub struct HyperInstrumentor {
    loaded: bool,
}

impl HyperInstrumentor {
    /// Whether the instrumentor is loaded.
    pub closed spec fn loaded(&self) -> bool {
        self.loaded
    }

    pub fn new() -> (instrumentor: Self)
        ensures
            !instrumentor.loaded(),
    {
        HyperInstrumentor { loaded: false }
    }

    /// Whether the instrumentor is loaded.
    pub fn is_loaded(&self) -> (loaded: bool)
        ensures
            loaded == self.loaded(),
    {
        self.loaded
    }
}

impl Instrumentor for HyperInstrumentor {
    fn library_name(&self) -> (name: &str)
        ensures
            name@ == hyper_library(),
    {
        "hyper"
    }

    fn func_names(&self) -> (names: Vec<&str>)
        ensures
            names@.len() == hyper_functions().len(),
            forall|i: int| 0 <= i < names@.len() ==> (#[trigger] names@[i])@ == hyper_functions()[i],
    {
        vec![
            "hyper::proto::h1::dispatch::Dispatcher<D,Bs,I,T>::poll_read",
            "hyper::server::conn::Http::serve_connection",
            "<hyper::server::server::Server<I,S,E>>::serve",
        ]
    }

    fn load(&mut self, _target: &TargetDetails) -> (outcome: Result<(), Error>)
        ensures
            outcome is Ok,
            final(self).loaded(),
    {
        self.loaded = true;
        Ok(())
    }

    fn run(&self) -> (outcome: Result<Vec<Event>, Error>)
        ensures
            outcome matches Ok(events) && events@.len() == 0,
    {
        Ok(Vec::new())
    }

    fn close(&mut self)
        ensures
            !final(self).loaded(),
    {
        self.loaded = false;
    }
}

} // verus!
