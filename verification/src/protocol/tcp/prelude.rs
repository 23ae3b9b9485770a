//! The names of sockets.

use crate::addr::Ipv4Addr;
use crate::header::gen_range;
use vstd::prelude::*;
use vstd::std_specs::convert::FromSpecImpl;

verus! {

/// The address and port that uniquely identify a remote location.
#[derive(Hash, Debug, Copy, Clone, PartialEq, Eq, Structural)]
pub struct Remote {
    pub addr: Ipv4Addr,
    pub port: Port,
}

impl Remote {
    pub fn new(addr: Ipv4Addr, port: Port) -> (r: Self)
        ensures
            r == (Remote { addr, port }),
    {
        Self { addr, port }
    }

    pub fn ip(&self) -> (r: Ipv4Addr)
        ensures
            r == self.addr,
    {
        self.addr
    }

    pub fn port(&self) -> (r: Port)
        ensures
            r == self.port,
    {
        self.port
    }
}

/// The number by which users refer to a socket.
#[derive(Hash, PartialEq, Eq, Structural, Debug, Copy, Clone)]
pub struct SocketDescriptor(pub u16);

impl FromSpecImpl<u16> for SocketDescriptor {
    open spec fn obeys_from_spec() -> bool {
        true
    }

    open spec fn from_spec(s: u16) -> Self {
        SocketDescriptor(s)
    }
}

impl From<u16> for SocketDescriptor {
    fn from(s: u16) -> (r: Self) {
        SocketDescriptor(s)
    }
}

#[derive(Hash, PartialEq, Eq, Structural, Debug, Copy, Clone)]
pub struct Port(pub u16);

impl FromSpecImpl<u16> for Port {
    open spec fn obeys_from_spec() -> bool {
        true
    }

    open spec fn from_spec(p: u16) -> Self {
        Port(p)
    }
}

impl From<u16> for Port {
    fn from(p: u16) -> (r: Self) {
        Port(p)
    }
}

impl Port {
    /// A port for this end of a connection that it asks for: none of the well-known ones. Which
    /// one is left to chance.
    pub fn random() -> (r: Self)
        ensures
            1024 <= r.0 < 65535,
    {
        Port(gen_range(1024, u16::MAX))
    }
}

/// The two ends of a connection.
#[derive(Hash, PartialEq, Eq, Structural, Debug, Copy, Clone)]
pub struct SocketId {
    pub remote: Remote,
    pub local_port: Port,
}

/// The name of the socket that listens at a port.
pub open spec fn listen_socket(local_port: Port) -> SocketId {
    SocketId {
        remote: Remote { addr: Ipv4Addr { a: 0, b: 0, c: 0, d: 0 }, port: Port(0) },
        local_port,
    }
}

impl SocketId {
    pub fn build() -> (r: SocketIdBuilder)
        ensures
            r == (SocketIdBuilder { remote_ip: None, remote_port: None, local_port: None }),
    {
        SocketIdBuilder::default()
    }

    pub fn for_listen_socket(local_port: Port) -> (r: Self)
        ensures
            r == listen_socket(local_port),
    {
        Self { remote: Remote::new(Ipv4Addr::new(0, 0, 0, 0), Port(0)), local_port }
    }

    pub fn remote(&self) -> (r: Remote)
        ensures
            r == self.remote,
    {
        self.remote
    }

    pub fn remote_ip(&self) -> (r: Ipv4Addr)
        ensures
            r == self.remote.addr,
    {
        self.remote.addr
    }

    pub fn remote_port(&self) -> (r: Port)
        ensures
            r == self.remote.port,
    {
        self.remote.port
    }

    pub fn local_port(&self) -> (r: Port)
        ensures
            r == self.local_port,
    {
        self.local_port
    }
}

/// Collects the parts of a socket's name.
pub struct SocketIdBuilder {
    pub remote_ip: Option<Ipv4Addr>,
    pub remote_port: Option<Port>,
    pub local_port: Option<Port>,
}

#[derive(Debug, PartialEq, Eq, Structural, Clone, Copy)]
pub enum BuildSocketIdError {
    NoRemoteIp,
    NoRemotePort,
    NoLocalPort,
}

impl Default for SocketIdBuilder {
    fn default() -> (r: Self)
        ensures
            r == (SocketIdBuilder { remote_ip: None, remote_port: None, local_port: None }),
    {
        SocketIdBuilder { remote_ip: None, remote_port: None, local_port: None }
    }
}

impl SocketIdBuilder {
    pub fn with_remote_ip(&mut self, remote_ip: Ipv4Addr) -> (r: &mut Self)
        ensures
            *r == (SocketIdBuilder { remote_ip: Some(remote_ip), ..*old(self) }),
            *final(self) == *final(r),
    {
        self.remote_ip = Some(remote_ip);
        self
    }

    pub fn with_remote_port(&mut self, remote_port: Port) -> (r: &mut Self)
        ensures
            *r == (SocketIdBuilder { remote_port: Some(remote_port), ..*old(self) }),
            *final(self) == *final(r),
    {
        self.remote_port = Some(remote_port);
        self
    }

    pub fn with_local_port(&mut self, local_port: Port) -> (r: &mut Self)
        ensures
            *r == (SocketIdBuilder { local_port: Some(local_port), ..*old(self) }),
            *final(self) == *final(r),
    {
        self.local_port = Some(local_port);
        self
    }

    /// The name, or what is missing of it, in the order remote address, remote port and local
    /// port.
    pub fn build(&self) -> (r: Result<SocketId, BuildSocketIdError>)
        ensures
            r == (match (self.remote_ip, self.remote_port, self.local_port) {
                (Some(ip), Some(port), Some(local_port)) => Ok::<SocketId, BuildSocketIdError>(
                    SocketId { remote: Remote { addr: ip, port }, local_port },
                ),
                (None, _, _) => Err(BuildSocketIdError::NoRemoteIp),
                (_, None, _) => Err(BuildSocketIdError::NoRemotePort),
                (_, _, None) => Err(BuildSocketIdError::NoLocalPort),
            }),
    {
        let remote_ip = match self.remote_ip {
            Some(remote_ip) => remote_ip,
            None => return Err(BuildSocketIdError::NoRemoteIp),
        };
        let remote_port = match self.remote_port {
            Some(remote_port) => remote_port,
            None => return Err(BuildSocketIdError::NoRemotePort),
        };
        let local_port = match self.local_port {
            Some(local_port) => local_port,
            None => return Err(BuildSocketIdError::NoLocalPort),
        };
        Ok(SocketId { remote: Remote::new(remote_ip, remote_port), local_port })
    }
}

} // verus!
