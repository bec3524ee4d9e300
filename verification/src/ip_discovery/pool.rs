//! Precompiled candidate addresses for the IP-blocked services. Every one is
//! probed before it is written to /etc/hosts.
use vstd::prelude::*;
use crate::text::{views, str_eq};
use crate::bypass::lit;

verus! {

/// The candidate addresses for a host, most recently confirmed first.
pub open spec fn precompiled_for(host: Seq<char>) -> Seq<Seq<char>> {
    if host == "instagram.com"@ {
        seq!["157.240.9.174"@, "157.240.0.35"@, "157.240.5.35"@, "157.240.3.35"@]
    } else if host == "facebook.com"@ {
        seq!["157.240.0.35"@, "157.240.9.174"@, "157.240.3.35"@]
    } else if host == "web.whatsapp.com"@ {
        seq!["157.240.0.174"@, "157.240.9.174"@, "157.240.0.35"@]
    } else if host == "faq.whatsapp.com"@ {
        seq!["157.240.0.174"@, "31.13.72.52"@]
    } else if host == "t.me"@ || host == "telegram.org"@ {
        seq![
            "149.154.175.50"@, "91.108.4.1"@, "91.108.8.1"@, "91.108.12.1"@, "91.108.16.1"@,
            "91.108.20.1"@, "91.108.56.1"@, "185.76.151.1"@,
        ]
    } else {
        seq![]
    }
}

/// The candidate addresses (as text) to try for `host`; unknown hosts have none.
pub fn precompiled_ips_for(host: &str) -> (r: Vec<String>)
    ensures
        views(r@) == precompiled_for(host@),
{
    let r = if str_eq(host, "instagram.com") {
        vec![lit("157.240.9.174"), lit("157.240.0.35"), lit("157.240.5.35"), lit("157.240.3.35")]
    } else if str_eq(host, "facebook.com") {
        vec![lit("157.240.0.35"), lit("157.240.9.174"), lit("157.240.3.35")]
    } else if str_eq(host, "web.whatsapp.com") {
        vec![lit("157.240.0.174"), lit("157.240.9.174"), lit("157.240.0.35")]
    } else if str_eq(host, "faq.whatsapp.com") {
        vec![lit("157.240.0.174"), lit("31.13.72.52")]
    } else if str_eq(host, "t.me") || str_eq(host, "telegram.org") {
        vec![
            lit("149.154.175.50"), lit("91.108.4.1"), lit("91.108.8.1"), lit("91.108.12.1"),
            lit("91.108.16.1"), lit("91.108.20.1"), lit("91.108.56.1"), lit("185.76.151.1"),
        ]
    } else {
        Vec::new()
    };
    assert(views(r@) =~= precompiled_for(host@));
    r
}

} // verus!
