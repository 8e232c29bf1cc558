//! The send path: user-entered text may be written to the device only
//! while the link is `Active`.  This module only decides; the write
//! itself is transport I/O and happens outside this crate.

use crate::config::{Config, LinkState};
use vstd::prelude::*;

verus! {

/// A write the caller should carry out: this device, this baud rate,
/// these bytes.
#[derive(Debug)]
pub struct WriteRequest {
    pub port: Vec<u8>,
    pub baud: u32,
    pub data: Vec<u8>,
}

/// Decide whether `text` may be sent under `config`.  While the link is
/// not `Active` this is a no-op: no write is requested, and the caller
/// keeps the entered text.  While it is `Active`, the request names the
/// configured port and baud rate and carries `text` unchanged.
pub fn plan_send(config: &Config, text: &Vec<u8>) -> (r: Option<WriteRequest>)
    ensures
        (r is Some) <==> config.state == LinkState::Active,
        r matches Some(w) ==> w.port@ == config.port_name@ && w.baud == config.baud_rate && w.data@
            == text@,
{
    match config.state {
        LinkState::Active => {
            let port = crate::bytes::subrange_vec(&config.port_name, 0, config.port_name.len());
            let data = crate::bytes::subrange_vec(text, 0, text.len());
            proof {
                assert(port@ =~= config.port_name@);
                assert(data@ =~= text@);
            }
            Some(WriteRequest { port, baud: config.baud_rate, data })
        },
        _ => None,
    }
}

} // verus!
