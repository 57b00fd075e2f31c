//! Network configuration and the address DHCP assigned.
use vstd::prelude::*;

verus! {

pub const DEFAULT_IP_ADDR: [u8; 4] = [0, 0, 0, 0];
pub const GATEWAY: [u8; 4] = [10, 0, 2, 2];
pub const PREFIX_LEN: u8 = 24;
/// Google Public DNS.
pub const DNS_SERVER: [u8; 4] = [8, 8, 8, 8];
pub const DNS_PORT: u16 = 53;
pub const LOOPBACK: [u8; 4] = [127, 0, 0, 1];
/// ICMP identifier of the ping socket.
pub const ICMP_IDENT: u16 = 0x1234;
/// Local port for DNS queries.
pub const DNS_LOCAL_PORT: u16 = 10053;

/// The address DHCP assigned (0.0.0.0 until then).
pub struct NetConfig {
    pub my_ip: [u8; 4],
}

impl NetConfig {
    pub fn new() -> (c: Self)
        ensures
            c.my_ip@ == seq![0u8, 0, 0, 0],
    {
        NetConfig { my_ip: [0, 0, 0, 0] }
    }
}

pub fn get_my_ip(cfg: &NetConfig) -> (ip: [u8; 4])
    ensures
        ip == cfg.my_ip,
{
    cfg.my_ip
}

pub fn set_my_ip(cfg: &mut NetConfig, ip: [u8; 4])
    ensures
        final(cfg).my_ip == ip,
{
    cfg.my_ip = ip;
}

/// An address has been assigned (it is not 0.0.0.0).
pub fn is_ip_assigned(cfg: &NetConfig) -> (r: bool)
    ensures
        r == (cfg.my_ip@ != seq![0u8, 0, 0, 0]),
{
    let ip = cfg.my_ip;
    let r = !(ip[0] == 0 && ip[1] == 0 && ip[2] == 0 && ip[3] == 0);
    assert(r == (cfg.my_ip@ != seq![0u8, 0, 0, 0])) by {
        if !r {
            assert(cfg.my_ip@ =~= seq![0u8, 0, 0, 0]);
        }
    }
    r
}

} // verus!
