//! The sockets that a Jupyter frontend names for its kernel.

use crate::text;
use vstd::prelude::*;
use vstd::string::*;

verus! {

/// The contents of a Jupyter connection file.
#[derive(Debug, Clone)]
pub struct ConnectionInfo {
    pub ip: String,
    pub transport: String,
    pub signature_scheme: String,
    pub key: String,
    pub shell_port: u16,
    pub iopub_port: u16,
    pub stdin_port: u16,
    pub control_port: u16,
    pub hb_port: u16,
}

impl ConnectionInfo {
    /// The address of a port: transport, `://`, host, `:` and the port's number.
    pub open spec fn address_text(&self, port: u16) -> Seq<char> {
        self.transport@ + "://"@ + self.ip@ + ":"@ + text::decimal(port as nat)
    }

    /// The address of a port.
    pub fn address(&self, port: u16) -> (r: String)
        ensures
            r@ == self.address_text(port),
    {
        let mut out = self.transport.clone();
        out.append("://");
        out.append(self.ip.as_str());
        out.append(":");
        out.append(text::number_text(port as u64).as_str());
        out
    }

    /// The address for requests.
    pub fn shell_address(&self) -> (r: String)
        ensures
            r@ == self.address_text(self.shell_port),
    {
        self.address(self.shell_port)
    }

    /// The address for broadcasts.
    pub fn iopub_address(&self) -> (r: String)
        ensures
            r@ == self.address_text(self.iopub_port),
    {
        self.address(self.iopub_port)
    }

    /// The address for requests that must not wait.
    pub fn control_address(&self) -> (r: String)
        ensures
            r@ == self.address_text(self.control_port),
    {
        self.address(self.control_port)
    }

    /// The address for input.
    pub fn stdin_address(&self) -> (r: String)
        ensures
            r@ == self.address_text(self.stdin_port),
    {
        self.address(self.stdin_port)
    }

    /// The address for heartbeats.
    pub fn hb_address(&self) -> (r: String)
        ensures
            r@ == self.address_text(self.hb_port),
    {
        self.address(self.hb_port)
    }
}


/// An address names the transport, the host and the port, which can be read back from it.
pub proof fn addresses_name_ports(info: ConnectionInfo, port: u16)
    ensures
        text::has_prefix(info.address_text(port), info.transport@ + "://"@ + info.ip@ + ":"@),
        text::u32_value(
            info.address_text(port).skip(
                (info.transport@ + "://"@ + info.ip@ + ":"@).len() as int,
            ),
        ) == Some(port as u32),
{
    let head = info.transport@ + "://"@ + info.ip@ + ":"@;
    let address = info.address_text(port);
    text::decimal_is_read_back(port as nat);
    assert(address.take(head.len() as int) =~= head);
    assert(address.skip(head.len() as int) =~= text::decimal(port as nat));
    assert('0' <= text::decimal(port as nat)[0]);
}

}
