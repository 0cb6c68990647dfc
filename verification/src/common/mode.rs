//! Mode profiles by name.

use crate::kcp::config::{KcpMode, KCP};
use vstd::prelude::*;

verus! {

/// The profile that a name stands for, if it is one of the four.
pub open spec fn mode_named(name: Seq<char>) -> Option<KcpMode> {
    if name == "normal"@ {
        Some(KcpMode::Normal)
    } else if name == "fast"@ {
        Some(KcpMode::Fast)
    } else if name == "fast2"@ {
        Some(KcpMode::Fast2)
    } else if name == "fast3"@ {
        Some(KcpMode::Fast3)
    } else {
        None
    }
}

/// The profile that a name stands for, if it is one of the four.
pub fn parse_mode(name: &str) -> (m: Option<KcpMode>)
    ensures
        m == mode_named(name@),
{
    let name: String = name.to_owned();
    if name == "normal".to_owned() {
        Some(KcpMode::Normal)
    } else if name == "fast".to_owned() {
        Some(KcpMode::Fast)
    } else if name == "fast2".to_owned() {
        Some(KcpMode::Fast2)
    } else if name == "fast3".to_owned() {
        Some(KcpMode::Fast3)
    } else {
        None
    }
}

/// Gives an endpoint the profile of that name. An unknown name stands for
/// `fast`.
pub fn apply_mode(kcp: &mut KCP, mode: &str)
    ensures
        *final(kcp) == old(kcp).with_profile(
            match mode_named(mode@) {
                Some(m) => m,
                None => KcpMode::Fast,
            },
        ),
{
    let m: KcpMode = match parse_mode(mode) {
        Some(m) => m,
        None => KcpMode::Fast,
    };
    if let Some(p) = m.nodelay_params() {
        kcp.set_mode(m, p.0, p.1, p.2, p.3);
    }
}

/// Gives an endpoint the profile of that name, or, where it is none of the
/// four, the explicit timing; an interval below 10 ms counts as 40 ms.
pub fn apply_mode_or_manual(
    kcp: &mut KCP,
    mode: &str,
    nodelay: u32,
    interval: u32,
    resend: u32,
    nc: u32,
)
    ensures
        match mode_named(mode@) {
            Some(m) => *final(kcp) == old(kcp).with_profile(m),
            None => *final(kcp) == (KCP {
                mode: KcpMode::Manual,
                nodelay,
                interval: if interval >= 10 {
                    interval
                } else {
                    40
                },
                resend,
                nc,
                ..*old(kcp)
            }),
        },
{
    match parse_mode(mode) {
        Some(_) => apply_mode(kcp, mode),
        None => {
            let i: u32 = if interval >= 10 {
                interval
            } else {
                40
            };
            kcp.set_nodelay(nodelay, i, resend, nc);
        },
    }
}

} // verus!
