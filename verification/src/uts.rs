//! The host and domain names of a container's UTS namespace.
use vstd::prelude::*;
use crate::config::RuntimeConfig;

verus! {

/// The names to set in the UTS namespace, host name first.
pub struct UtsPlan {
    pub hostname: Option<String>,
    pub domainname: Option<String>,
}

/// Which names setting up the UTS namespace sets: the configured host name, then
/// the configured domain name, each only when the configuration gives one.
pub fn setup_uts(config: &RuntimeConfig) -> (r: UtsPlan)
    ensures
        r.hostname.deep_view() == config.hostname.deep_view(),
        r.domainname.deep_view() == config.domainname.deep_view(),
{
    let hostname = match &config.hostname {
        Some(h) => Some(h.clone()),
        None => None,
    };
    let domainname = match &config.domainname {
        Some(d) => Some(d.clone()),
        None => None,
    };
    UtsPlan { hostname, domainname }
}

} // verus!
