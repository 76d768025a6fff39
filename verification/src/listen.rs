//! TCP listen socket configuration, validated before a listener is opened.

use vstd::prelude::*;

verus! {

/// The backlog given to listeners that never set one.
pub const DEFAULT_LISTEN_BACKLOG: u32 = 4096;

/// The smallest accepted backlog; smaller requests are ignored.
pub const MINIMAL_LISTEN_BACKLOG: u32 = 8;

/// An IP address as its plain integer form.
#[derive(Clone, Copy, Debug, PartialEq, Eq, Structural)]
pub enum IpAddress {
    /// An IPv4 address as its 32-bit value.
    V4(u32),
    /// An IPv6 address as its 128-bit value.
    V6(u128),
}

/// A socket address: an IP address and a port.
#[derive(Clone, Copy, Debug, PartialEq, Eq, Structural)]
pub struct SockAddr {
    /// The IP address.
    pub ip: IpAddress,
    /// The port; zero means none was chosen.
    pub port: u16,
}

/// A network interface, named or numbered.
#[derive(Clone, Debug)]
pub enum Interface {
    /// An interface name as bytes.
    Name(Vec<u8>),
    /// An interface index.
    Index(u32),
}

/// TCP keep-alive settings as plain values.
#[derive(Clone, Copy, Debug, PartialEq, Eq, Structural)]
pub struct TcpKeepAliveConfig {
    /// Idle seconds before the first probe.
    pub idle_time_secs: u64,
    /// Seconds between probes.
    pub probe_interval_secs: u64,
    /// Probes before the peer counts as gone.
    pub probe_count: u32,
}

/// Why a listen configuration was rejected.
#[derive(Clone, Copy, Debug, PartialEq, Eq, Structural)]
pub enum ListenConfigError {
    /// No listen port is set.
    NoListenPort,
}

/// How a TCP listening socket is to be opened.
pub struct TcpListenConfig {
    /// The address to bind.
    pub address: SockAddr,
    /// The interface to bind to, if any.
    pub interface: Option<Interface>,
    /// Whether the socket is restricted to IPv6 only.
    pub ipv6only: Option<bool>,
    /// Whether the socket accepts foreign addresses transparently.
    pub transparent: bool,
    /// The packet mark set on the socket, if any.
    pub mark: Option<u32>,
    /// The accept backlog.
    pub backlog: u32,
    /// How many listener instances are asked for.
    pub instance: usize,
    /// An instance count derived from the machine's parallelism.
    pub scale: usize,
    /// Whether listeners follow CPU affinity.
    pub follow_cpu_affinity: bool,
    /// Keep-alive settings for accepted connections, if any.
    pub keepalive: Option<TcpKeepAliveConfig>,
}

impl Default for TcpListenConfig {
    /// Listen on the unspecified IPv6 address with no port chosen.
    fn default() -> (c: Self)
        ensures
            c == TcpListenConfig::spec_new(SockAddr { ip: IpAddress::V6(0), port: 0 }),
    {
        TcpListenConfig::new(SockAddr { ip: IpAddress::V6(0), port: 0 })
    }
}

impl TcpListenConfig {
    /// The configuration `new` hands out for an address.
    pub open spec fn spec_new(address: SockAddr) -> TcpListenConfig {
        TcpListenConfig {
            address,
            interface: None,
            ipv6only: None,
            transparent: false,
            mark: None,
            backlog: DEFAULT_LISTEN_BACKLOG,
            instance: 1,
            scale: 0,
            follow_cpu_affinity: false,
            keepalive: None,
        }
    }

    /// A fresh configuration for the given address.
    pub fn new(address: SockAddr) -> (c: Self)
        ensures
            c == Self::spec_new(address),
    {
        TcpListenConfig {
            address,
            interface: None,
            ipv6only: None,
            transparent: false,
            mark: None,
            backlog: DEFAULT_LISTEN_BACKLOG,
            instance: 1,
            scale: 0,
            follow_cpu_affinity: false,
            keepalive: None,
        }
    }

    /// A configuration is usable exactly when a listen port is set.
    pub fn check(&self) -> (r: Result<(), ListenConfigError>)
        ensures
            r is Ok <==> self.address.port != 0,
            r is Err ==> r == Err::<(), ListenConfigError>(ListenConfigError::NoListenPort),
    {
        if self.address.port == 0 {
            Err(ListenConfigError::NoListenPort)
        } else {
            Ok(())
        }
    }

    /// The address to bind.
    pub fn address(&self) -> (r: SockAddr)
        ensures
            r == self.address,
    {
        self.address
    }

    /// The interface to bind to, if any.
    pub fn interface(&self) -> (r: Option<&Interface>)
        ensures
            match r {
                Some(i) => self.interface == Some(*i),
                None => self.interface is None,
            },
    {
        match &self.interface {
            Some(i) => Some(i),
            None => None,
        }
    }

    /// Whether the socket is restricted to IPv6 only.
    pub fn is_ipv6only(&self) -> (r: Option<bool>)
        ensures
            r == self.ipv6only,
    {
        self.ipv6only
    }

    /// Whether the socket accepts foreign addresses transparently.
    pub fn transparent(&self) -> (r: bool)
        ensures
            r == self.transparent,
    {
        self.transparent
    }

    /// Keep-alive settings for accepted connections, if any.
    pub fn keepalive(&self) -> (r: Option<&TcpKeepAliveConfig>)
        ensures
            match r {
                Some(k) => self.keepalive == Some(*k),
                None => self.keepalive is None,
            },
    {
        match &self.keepalive {
            Some(k) => Some(k),
            None => None,
        }
    }

    /// The packet mark set on the socket, if any.
    pub fn mark(&self) -> (r: Option<u32>)
        ensures
            r == self.mark,
    {
        self.mark
    }

    /// The accept backlog.
    pub fn backlog(&self) -> (r: u32)
        ensures
            r == self.backlog,
    {
        self.backlog
    }

    /// How many listener instances to run: the larger of the explicit
    /// count and the derived scale.
    pub fn instance(&self) -> (r: usize)
        ensures
            r == (if self.instance >= self.scale {
                self.instance
            } else {
                self.scale
            }),
    {
        if self.instance >= self.scale {
            self.instance
        } else {
            self.scale
        }
    }

    /// Replace the bind address.
    pub fn set_socket_address(&mut self, addr: SockAddr)
        ensures
            *final(self) == (TcpListenConfig { address: addr, ..*old(self) }),
    {
        self.address = addr;
    }

    /// Bind to the given interface.
    pub fn set_interface(&mut self, interface: Interface)
        ensures
            *final(self) == (TcpListenConfig { interface: Some(interface), ..*old(self) }),
    {
        self.interface = Some(interface);
    }

    /// Replace the listen port, keeping the IP address.
    pub fn set_port(&mut self, port: u16)
        ensures
            *final(self) == (TcpListenConfig {
                address: SockAddr { ip: old(self).address.ip, port },
                ..*old(self)
            }),
    {
        self.address.port = port;
    }

    /// Restrict, or open, the socket to IPv6 only.
    pub fn set_ipv6_only(&mut self, ipv6only: bool)
        ensures
            *final(self) == (TcpListenConfig { ipv6only: Some(ipv6only), ..*old(self) }),
    {
        self.ipv6only = Some(ipv6only);
    }

    /// Accept foreign addresses transparently.
    pub fn set_transparent(&mut self)
        ensures
            *final(self) == (TcpListenConfig { transparent: true, ..*old(self) }),
    {
        self.transparent = true;
    }

    /// Set the packet mark.
    pub fn set_mark(&mut self, mark: u32)
        ensures
            *final(self) == (TcpListenConfig { mark: Some(mark), ..*old(self) }),
    {
        self.mark = Some(mark);
    }

    /// Replace the backlog; requests under the minimum are ignored.
    pub fn set_backlog(&mut self, backlog: u32)
        ensures
            backlog >= MINIMAL_LISTEN_BACKLOG ==> *final(self) == (TcpListenConfig {
                backlog,
                ..*old(self)
            }),
            backlog < MINIMAL_LISTEN_BACKLOG ==> *final(self) == *old(self),
    {
        if backlog >= MINIMAL_LISTEN_BACKLOG {
            self.backlog = backlog;
        }
    }

    /// Set the keep-alive configuration.
    pub fn set_keepalive(&mut self, keepalive_config: TcpKeepAliveConfig)
        ensures
            *final(self) == (TcpListenConfig {
                keepalive: Some(keepalive_config),
                ..*old(self)
            }),
    {
        self.keepalive = Some(keepalive_config);
    }

    /// Set the explicit instance count; zero means one.
    pub fn set_instance(&mut self, instance: usize)
        ensures
            *final(self) == (TcpListenConfig {
                instance: (if instance == 0 {
                    1
                } else {
                    instance
                }),
                ..*old(self)
            }),
    {
        if instance == 0 {
            self.instance = 1;
        } else {
            self.instance = instance;
        }
    }

    /// Set the derived scale to an already-computed instance count.
    pub fn set_scale(&mut self, scale: usize)
        ensures
            *final(self) == (TcpListenConfig { scale, ..*old(self) }),
    {
        self.scale = scale;
    }

    /// Derive the scale as the given fraction of the machine's
    /// parallelism.
    pub fn set_fraction_scale(&mut self, numerator: usize, denominator: usize, parallelism: usize)
        requires
            denominator != 0,
            parallelism * numerator <= usize::MAX,
        ensures
            *final(self) == (TcpListenConfig {
                scale: ((parallelism * numerator) / (denominator as int)) as usize,
                ..*old(self)
            }),
    {
        self.scale = parallelism * numerator / denominator;
    }

    /// Whether listeners follow CPU affinity.
    pub fn follow_cpu_affinity(&self) -> (r: bool)
        ensures
            r == self.follow_cpu_affinity,
    {
        self.follow_cpu_affinity
    }

    /// Let listeners follow, or ignore, CPU affinity.
    pub fn set_follow_cpu_affinity(&mut self, enable: bool)
        ensures
            *final(self) == (TcpListenConfig { follow_cpu_affinity: enable, ..*old(self) }),
    {
        self.follow_cpu_affinity = enable;
    }
}

} // verus!
