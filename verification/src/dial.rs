//! Where the services of the name space are found.
use vstd::prelude::*;
use vstd::string::StringExecFns;

use crate::outside::{regex_capture, regex_group};

verus! {

/// The pattern of a display that ends in `.0` behind the number of the
/// display.
pub open spec fn dot_zero() -> Seq<char> {
    r"\A(.*:\d+)\.0\z"@
}

/// The display that is used where none is given.
pub open spec fn default_display() -> Seq<char> {
    ":0.0"@
}

/// The display `disp` without the screen number `.0`, where it ends in one.
pub open spec fn canonical_display(disp: Seq<char>) -> Seq<char> {
    match regex_group(dot_zero(), disp, 1) {
        Some(Some(d)) => d,
        _ => disp,
    }
}

/// The directory of the name space of the user `user` on the display
/// `disp`.
pub open spec fn spec_namespace_path(user: Seq<char>, disp: Seq<char>) -> Seq<char> {
    "/tmp/ns."@ + user + "."@ + disp
}

/// The directory of the name space: the one given, and else the one of the
/// user on the display, or on the default display where none is given.
pub open spec fn spec_namespace(
    given: Option<Seq<char>>,
    display: Option<Seq<char>>,
    user: Seq<char>,
) -> Seq<char> {
    match given {
        Some(ns) => ns,
        None => spec_namespace_path(
            user,
            canonical_display(
                match display {
                    Some(d) => d,
                    None => default_display(),
                },
            ),
        ),
    }
}

/// The directory of the name space of the user `user` on the display
/// `disp`.
pub fn namespace_path(user: &str, disp: &str) -> (s: String)
    ensures
        s@ == spec_namespace_path(user@, disp@),
{
    let mut s = String::from_str("/tmp/ns.");
    s.append(user);
    s.append(".");
    s.append(disp);
    s
}

/// The directory of the name space, from what the environment gives: the
/// name space, the display and the user.
pub fn namespace(given: Option<String>, display: Option<String>, user: &str) -> (s: String)
    ensures
        s@ == spec_namespace(
            match given {
                Some(g) => Some(g@),
                None => None,
            },
            match display {
                Some(d) => Some(d@),
                None => None,
            },
            user@,
        ),
{
    if let Some(ns) = given {
        return ns;
    }
    let disp = match display {
        Some(d) => d,
        None => String::from_str(":0.0"),
    };
    let disp = match regex_capture(r"\A(.*:\d+)\.0\z", disp.as_str(), 1) {
        Some(Some(d)) => d,
        _ => disp,
    };
    namespace_path(user, disp.as_str())
}

/// The address of the service `service` in the name space `ns`.
pub fn dial_service(ns: &str, service: &str) -> (addr: String)
    ensures
        addr@ == ns@ + "/"@ + service@,
{
    let mut s = String::from_str(ns);
    s.append("/");
    s.append(service);
    s
}

/// What mounting a service takes: the address to dial, and the user and the
/// tree to attach.
#[derive(Debug, PartialEq, Eq)]
pub struct Mount {
    pub addr: String,
    pub user: String,
    pub aname: String,
}

/// What mounting the service `service` of the name space `ns` takes for the
/// user `user`: the service's address, and an attach of the user to the
/// default tree.
pub fn mount_service(service: &str, ns: &str, user: &str) -> (m: Mount)
    ensures
        m.addr@ == ns@ + "/"@ + service@,
        m.user@ == user@,
        m.aname@.len() == 0,
{
    Mount { addr: dial_service(ns, service), user: String::from_str(user), aname: String::new() }
}

} // verus!
