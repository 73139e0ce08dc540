//! The read-only status report: the interface address columns, the
//! default gateway, the broker display and the recent status snapshots,
//! assembled from plain values the surrounding service hands in.

use crate::ipv4::{format_ipv4, ipv4_render, prefix_mask, prefix_to_mask};
use crate::state::{power_status_render, DeviceState};
use vstd::prelude::*;

verus! {

/// The address column of the report: every interface address except the
/// configuration endpoint's own, two spaces before each entry; an entry
/// whose prefix is out of range shows as nothing.
pub open spec fn ip_column(l: Seq<(u32, u8)>, cfg: u32) -> Seq<char>
    decreases l.len(),
{
    if l.len() == 0 {
        Seq::empty()
    } else {
        let rest = ip_column(l.drop_last(), cfg);
        if l.last().0 == cfg {
            rest
        } else {
            rest + "  "@ + (if l.last().1 <= 32 {
                ipv4_render(l.last().0)
            } else {
                Seq::<char>::empty()
            })
        }
    }
}

/// The mask column of the report, aligned with the address column.
pub open spec fn mask_column(l: Seq<(u32, u8)>, cfg: u32) -> Seq<char>
    decreases l.len(),
{
    if l.len() == 0 {
        Seq::empty()
    } else {
        let rest = mask_column(l.drop_last(), cfg);
        if l.last().0 == cfg {
            rest
        } else {
            rest + "  "@ + (if l.last().1 <= 32 {
                ipv4_render(prefix_mask(l.last().1 as u32))
            } else {
                Seq::<char>::empty()
            })
        }
    }
}

/// The two interface columns, built in one pass over the address list.
pub fn format_addr_columns(addrs: &Vec<(u32, u8)>, config_ip: u32) -> (r: (String, String))
    ensures
        r.0@ == ip_column(addrs@, config_ip),
        r.1@ == mask_column(addrs@, config_ip),
{
    proof {
        reveal_strlit("  ");
    }
    let n = addrs.len();
    let mut ips = String::new();
    let mut masks = String::new();
    let mut i: usize = 0;
    proof {
        assert(ip_column(addrs@.subrange(0, 0), config_ip) =~= Seq::<char>::empty());
        assert(mask_column(addrs@.subrange(0, 0), config_ip) =~= Seq::<char>::empty());
    }
    while i < n
        invariant
            n == addrs@.len(),
            i <= n,
            ips@ == ip_column(addrs@.subrange(0, i as int), config_ip),
            masks@ == mask_column(addrs@.subrange(0, i as int), config_ip),
        decreases n - i,
    {
        let (addr, prefix) = addrs[i];
        if addr != config_ip {
            ips.append("  ");
            masks.append("  ");
            if prefix <= 32 {
                let a = format_ipv4(addr);
                ips.append(a.as_str());
                let m = format_ipv4(prefix_to_mask(prefix));
                masks.append(m.as_str());
            }
        }
        proof {
            let l = addrs@;
            assert(l.subrange(0, i + 1).drop_last() =~= l.subrange(0, i as int));
            assert(l.subrange(0, i + 1).last() == l[i as int]);
            assert(ips@ =~= ip_column(l.subrange(0, i + 1), config_ip));
            assert(masks@ =~= mask_column(l.subrange(0, i + 1), config_ip));
        }
        i = i + 1;
    }
    proof {
        assert(addrs@.subrange(0, n as int) =~= addrs@);
    }
    (ips, masks)
}

/// What `GET status` answers; every field is plain text and the request
/// never fails, a lookup that failed shows as an empty field.
pub struct Status {
    pub host_name: String,
    pub host_ip: String,
    pub host_mask: String,
    pub gateway_ip: String,
    pub broker: String,
    pub power_status: String,
}

/// Assembles the status report from the shared state and from what the
/// operating system reported: the interface address list (empty on OS
/// error) and the default gateway (absent on OS error or no route).
pub fn build_status(
    state: &DeviceState,
    addrs: &Vec<(u32, u8)>,
    config_ip: u32,
    gateway: Option<u32>,
) -> (st: Status)
    requires
        state.wf(),
    ensures
        st.host_name@ == state.device_name_spec(),
        st.host_ip@ == ip_column(addrs@, config_ip),
        st.host_mask@ == mask_column(addrs@, config_ip),
        st.gateway_ip@ == match gateway {
            Some(g) => ipv4_render(g),
            None => Seq::<char>::empty(),
        },
        st.broker@ == state.broker_spec().display_spec(),
        st.power_status@ == power_status_render(state.history_spec()),
{
    let (host_ip, host_mask) = format_addr_columns(addrs, config_ip);
    let gateway_ip = match gateway {
        Some(g) => format_ipv4(g),
        None => String::new(),
    };
    Status {
        host_name: state.current_device_name().clone(),
        host_ip,
        host_mask,
        gateway_ip,
        broker: state.current_broker().display(),
        power_status: state.power_status_text(),
    }
}

} // verus!
