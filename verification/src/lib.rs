use vstd::prelude::*;

pub mod chunks;
pub mod clock;
pub mod codec;
pub mod fmt;
pub mod ids;
pub mod options;
pub mod outfile;
pub mod receiver;
pub mod sender;
pub mod telemetry;

verus! {

/// Which channel a transfer uses: independently addressed unreliable
/// messages, or one ordered reliable byte stream.
#[derive(Clone, Copy, Debug, PartialEq, Eq, Structural)]
pub enum Mode {
    Datagram,
    Stream,
}

} // verus!
