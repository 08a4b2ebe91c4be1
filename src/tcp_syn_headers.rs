//! Options that save a connection's SYN headers and read them back.
use vstd::prelude::*;

verus! {

/// Option that turns the saving of a SYN's headers on or off.
#[derive(Clone, Copy, Debug, Eq, Hash, PartialEq)]
pub struct TcpSaveSyn;

/// Option that reads the saved SYN headers, as bytes.
#[derive(Clone, Copy, Debug, Eq, Hash, PartialEq)]
pub struct TcpSavedSyn;

} // verus!
