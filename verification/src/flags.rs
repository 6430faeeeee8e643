//! The TCP flag bits, one constant per bit of the flags byte.

use vstd::prelude::*;

verus! {

pub const FIN: u8 = 1;

pub const SYN: u8 = 2;

pub const RST: u8 = 4;

pub const PSH: u8 = 8;

pub const ACK: u8 = 16;

pub const URG: u8 = 32;

pub const ECE: u8 = 64;

pub const CWR: u8 = 128;

} // verus!
