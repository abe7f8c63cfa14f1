//! Secret-store commands: thin verified fronts over the [`crate::keychain`]
//! map, mirroring the command payload and response shapes.

use vstd::prelude::*;
use crate::keychain::{Keychain, set_secret, get_secret, delete_secret};

verus! {

/// Request to store one secret.
#[derive(Debug, Clone)]
pub struct SecureSetPayload {
    pub key: String,
    pub value: String,
}

/// Request naming one secret.
#[derive(Debug, Clone)]
pub struct SecureKeyPayload {
    pub key: String,
}

/// Plain acknowledgement.
#[derive(Debug, Clone, Copy, PartialEq, Eq, Structural)]
pub struct OkResponse {
    pub ok: bool,
}

/// Response carrying the secret looked up, if it was there.
#[derive(Debug, Clone)]
pub struct SecureGetResponse {
    pub value: Option<String>,
}

/// Stores `payload.value` under `payload.key`. Never fails: afterwards the
/// key answers the value and all other keys are unchanged.
pub fn secure_set(kc: &mut Keychain, payload: SecureSetPayload) -> (r: Result<OkResponse, String>)
    requires
        old(kc).wf(),
    ensures
        final(kc).wf(),
        r == Ok::<OkResponse, String>(OkResponse { ok: true }),
        final(kc).spec_get(payload.key@) == Some(payload.value@),
        forall|k: Seq<char>| k != payload.key@ ==> final(kc).spec_get(k) == old(kc).spec_get(k),
{
    set_secret(kc, payload.key.as_str(), payload.value.as_str());
    Ok(OkResponse { ok: true })
}

/// Looks `payload.key` up. Never fails: the response holds exactly what the
/// store answers for that key.
pub fn secure_get(kc: &Keychain, payload: SecureKeyPayload) -> (r: Result<
    SecureGetResponse,
    String,
>)
    ensures
        match r {
            Ok(resp) => match resp.value {
                Some(v) => kc.spec_get(payload.key@) == Some(v@),
                None => kc.spec_get(payload.key@) is None,
            },
            Err(_) => false,
        },
{
    let value = get_secret(kc, payload.key.as_str());
    Ok(SecureGetResponse { value })
}

/// Deletes `payload.key`. Never fails: afterwards the key answers nothing
/// and all other keys are unchanged.
pub fn secure_delete(kc: &mut Keychain, payload: SecureKeyPayload) -> (r: Result<
    OkResponse,
    String,
>)
    requires
        old(kc).wf(),
    ensures
        final(kc).wf(),
        r == Ok::<OkResponse, String>(OkResponse { ok: true }),
        final(kc).spec_get(payload.key@) is None,
        forall|k: Seq<char>| k != payload.key@ ==> final(kc).spec_get(k) == old(kc).spec_get(k),
{
    delete_secret(kc, payload.key.as_str());
    Ok(OkResponse { ok: true })
}

} // verus!
