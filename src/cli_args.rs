//! What the command line asks of the client.

use vstd::prelude::*;

verus! {

/// What the command line asked for.
pub struct ProvidedArgs {
    pub initial_channel: Option<String>,
    pub authenticate: bool,
}

} // verus!
