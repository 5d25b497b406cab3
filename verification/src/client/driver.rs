//! What a state machine of this library asks of the code that drives it.

use vstd::prelude::*;

verus! {

/// The next thing that the driver of a handshake has to do before it calls
/// the state machine again.
#[derive(Debug, Clone, PartialEq, Eq)]
pub enum Demand {
    /// Read exactly this many bytes from the server and hand them over.
    Read(usize),
    /// Run a TLS client handshake on the stream, for the server of this
    /// name, then call again with no input. From then on every byte travels
    /// through the TLS session.
    StartTls(String),
    /// Nothing: the handshake is complete.
    Finished,
}

/// The mathematical value of a [`Demand`].
pub enum DemandView {
    Read(int),
    StartTls(Seq<char>),
    Finished,
}

impl View for Demand {
    type V = DemandView;

    open spec fn view(&self) -> DemandView {
        match *self {
            Demand::Read(n) => DemandView::Read(n as int),
            Demand::StartTls(name) => DemandView::StartTls(name@),
            Demand::Finished => DemandView::Finished,
        }
    }
}

impl DemandView {
    /// How many bytes of input the demand asks for.
    pub open spec fn input_len(self) -> int {
        match self {
            DemandView::Read(n) => n,
            DemandView::StartTls(_) => 0,
            DemandView::Finished => 0,
        }
    }
}

} // verus!
