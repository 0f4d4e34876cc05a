//! Value-level models of the hardware-facing USB structures: the fields a
//! buffer descriptor's control word carries and the layout of a SETUP
//! packet.  The volatile register access itself lives outside the library.

pub mod k20;
