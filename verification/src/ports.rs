//! The ports the program serves on.  Each is either given on the command
//! line, or, when a service name is given, handed out by the port manager
//! (listening on the REST port given on the command line) for that name.
use vstd::prelude::*;

verus! {

/// Where a port comes from.
#[derive(Debug, PartialEq)]
pub enum PortSource {
    /// This port.
    Fixed(u16),
    /// The port the port manager hands out for this service name.
    Service(String),
}

/// The source of a port: the port manager when a service name is given,
/// else the port itself.
pub fn port_source(port: u16, service: &Option<String>) -> (r: PortSource)
    ensures
        match *service {
            Some(s) => r matches PortSource::Service(n) && n@ == s@,
            None => r == PortSource::Fixed(port),
        },
{
    match service {
        Some(s) => PortSource::Service(s.clone()),
        None => PortSource::Fixed(port),
    }
}

} // verus!
