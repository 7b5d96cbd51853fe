//! The connection manager: there is one session per process, to one
//! configured upstream endpoint. The address is parsed here; the
//! platform's synchronous connect call happens at the boundary and
//! its outcome is judged here.

use vstd::prelude::*;

use crate::addr::Ipv4Endpoint;
use crate::addr::parse_endpoint;
use crate::addr::spells_endpoint;
use crate::addr::valid_endpoint;
use crate::errors::ProxyError;

verus! {

/// The single outbound session: a connected socket to `endpoint`.
/// A value of this type exists only once the configured address
/// parsed and the connect call succeeded.
#[derive(Clone, Copy, PartialEq, Eq, Structural, Debug)]
pub struct Session {
    pub endpoint: Ipv4Endpoint,
}

/// First half of connection establishment: parse the configured
/// address. An invalid address fails with `AddressParse` before any
/// socket is created.
pub fn plan_connect(address: &[u8]) -> (r: Result<Ipv4Endpoint, ProxyError>)
    ensures
        match r {
            Ok(e) => spells_endpoint(address@, e),
            Err(err) => err == ProxyError::AddressParse && !valid_endpoint(address@),
        },
{
    parse_endpoint(address)
}

/// Second half: the platform's blocking connect call on the parsed
/// endpoint has returned. A session exists exactly when that call
/// succeeded; otherwise the system error is wrapped in `Connection`.
pub fn complete_connect(endpoint: Ipv4Endpoint, connected: Result<(), i32>) -> (r: Result<
    Session,
    ProxyError,
>)
    ensures
        match r {
            Ok(session) => connected is Ok && session.endpoint == endpoint,
            Err(err) => connected matches Err(c) && err == ProxyError::Connection(c),
        },
{
    match connected {
        Ok(_) => Ok(Session { endpoint }),
        Err(c) => Err(ProxyError::Connection(c)),
    }
}

/// The boundary code of connection establishment: 0 when a session
/// exists, -1 on any failure — address parse and connect failures
/// alike.
pub fn connect_code(r: &Result<Session, ProxyError>) -> (code: i32)
    ensures
        code == 0 <==> r is Ok,
        r is Err ==> code == -1,
{
    match r {
        Ok(_) => 0,
        Err(_) => -1,
    }
}

} // verus!
