//! The error taxonomy of the proxy client, and the mapping of each
//! outcome to the signed status codes that the foreign-function
//! boundary returns: zero or a byte count for success, a negative
//! value for failure.

use vstd::prelude::*;

verus! {

/// Everything that can go wrong in the proxy core. `Connection`,
/// `Io` and `Thread` carry the system error code reported by the
/// platform call that failed.
#[derive(Clone, Copy, PartialEq, Eq, Structural, Debug)]
pub enum ProxyError {
    /// The configured server address is not a valid IPv4 `host:port`.
    AddressParse,
    /// The socket could not be created or connected.
    Connection(i32),
    /// A send or receive failed at the system level.
    Io(i32),
    /// The poller thread could not be created.
    Thread(i32),
    /// A lock could not be initialized.
    MutexInit,
}

/// The boundary status code of a unit result: 0 on success, -1 on
/// any failure.
pub fn status_code(r: &Result<(), ProxyError>) -> (code: i32)
    ensures
        code == 0 <==> r is Ok,
        r is Err ==> code == -1,
{
    match r {
        Ok(_) => 0,
        Err(_) => -1,
    }
}

/// The boundary code of an initialization run: the two lock setups
/// must both report 0, after which the connect status is passed
/// through. Any lock failure wins over the connect status.
pub fn init_code(transport_lock_rc: i32, gate_rc: i32, connect_code: i32) -> (code: i32)
    ensures
        (transport_lock_rc != 0 || gate_rc != 0) ==> code == -1,
        (transport_lock_rc == 0 && gate_rc == 0) ==> code == connect_code,
{
    if transport_lock_rc != 0 || gate_rc != 0 {
        -1
    } else {
        connect_code
    }
}

} // verus!
