//! Names of the Venus OS MQTT topics read by the energy manager:
//! `N/<portal id>/<service>/<instance>/<path>`.
use vstd::prelude::*;
use crate::text::{dec_digits, push_char, push_u64};

verus! {

/// `N/<portal>/<service>/<instance>/<path>`.
pub open spec fn device_topic_of(portal: Seq<char>, service: Seq<char>, instance: nat, path: Seq<char>) -> Seq<
    char,
> {
    seq!['N', '/'] + portal + seq!['/'] + service + seq!['/'] + dec_digits(instance) + seq!['/']
        + path
}

/// Topic of `path` under instance `instance` of `service` on the portal.
pub fn device_topic(portal: &str, service: &str, instance: u32, path: &str) -> (r: String)
    ensures
        r@ == device_topic_of(portal@, service@, instance as nat, path@),
{
    let mut s = String::new();
    push_char(&mut s, 'N');
    push_char(&mut s, '/');
    s.append(portal);
    push_char(&mut s, '/');
    s.append(service);
    push_char(&mut s, '/');
    push_u64(&mut s, instance as u64);
    push_char(&mut s, '/');
    s.append(path);
    proof {
        assert(s@ =~= device_topic_of(portal@, service@, instance as nat, path@));
    }
    s
}

} // verus!
