//! What the protection service guarantees over any primitive.
//!
//! A primitive is described by the outcomes that it may give to a call. Two
//! properties of a pair of primitives, one that protects and one that
//! unprotects, are named here: that the pair recovers what was protected, and
//! that it binds the entropy. The laws show that the service hands such
//! properties on to its callers, for every payload and every entropy.

use crate::blob::fits;
use crate::protection::{
    bytes_of, concluded, concluded_ciphertext, describable, lemma_call_views, protect_call_of,
    protect_yields, unprotect_call_of, unprotect_yields, CallView, PrimitiveCall,
    ProtectionError, TOO_LONG,
};
use crate::scope::{protect_flags, unprotect_flags, Scope};
use vstd::prelude::*;

verus! {

/// The pair recovers what was protected with `flags`: whenever `sealing`
/// gave a ciphertext to a call with these flags, `opening` gives the data of
/// that call, and nothing else, to the call that presents the ciphertext with
/// the same entropy.
pub open spec fn recovers<'a>(
    sealing: spec_fn(PrimitiveCall<'a>, Result<Vec<u8>, i32>) -> bool,
    opening: spec_fn(PrimitiveCall<'a>, Result<Vec<u8>, i32>) -> bool,
    flags: u32,
) -> bool {
    forall|
        sealed: PrimitiveCall<'a>,
        ciphertext: Vec<u8>,
        opened: PrimitiveCall<'a>,
        outcome: Result<Vec<u8>, i32>,
    |
        sealed.flags == flags && #[trigger] sealing(sealed, Ok(ciphertext)) && opened@ == (CallView {
            data: ciphertext@,
            entropy: sealed@.entropy,
            flags: unprotect_flags(),
        }) && #[trigger] opening(opened, outcome) ==> (outcome matches Ok(bytes) && bytes@
            == sealed@.data)
}

/// The pair binds the entropy: whenever `sealing` gave a ciphertext to a
/// call, `opening` fails on every call that presents the ciphertext with
/// another entropy, an absent one where one was given and a given one where
/// none was.
pub open spec fn binds_entropy<'a>(
    sealing: spec_fn(PrimitiveCall<'a>, Result<Vec<u8>, i32>) -> bool,
    opening: spec_fn(PrimitiveCall<'a>, Result<Vec<u8>, i32>) -> bool,
) -> bool {
    forall|
        sealed: PrimitiveCall<'a>,
        ciphertext: Vec<u8>,
        opened: PrimitiveCall<'a>,
        outcome: Result<Vec<u8>, i32>,
    |
        #[trigger] sealing(sealed, Ok(ciphertext)) && opened@.data == ciphertext@ && opened@.entropy
            != sealed@.entropy && #[trigger] opening(opened, outcome) ==> outcome is Err
}

/// A ciphertext that `protect` returned is an output of the primitive for
/// the call that carries the whole payload and the whole entropy, and has
/// fewer than 2^32 bytes.
pub proof fn lemma_protected<'a>(
    sealing: spec_fn(PrimitiveCall<'a>, Result<Vec<u8>, i32>) -> bool,
    payload: &'a [u8],
    entropy: Option<&'a [u8]>,
    scope: Scope,
    ciphertext: Vec<u8>,
)
    requires
        protect_yields(sealing, payload, entropy, scope, Ok(ciphertext)),
    ensures
        describable(payload@, bytes_of(entropy)),
        fits(ciphertext@),
        sealing(protect_call_of(payload, entropy, scope), Ok(ciphertext)),
        protect_call_of(payload, entropy, scope)@ == (CallView {
            data: payload@,
            entropy: bytes_of(entropy),
            flags: protect_flags(scope),
        }),
{
    lemma_call_views(payload, entropy, scope);
    let sealed = protect_call_of(payload, entropy, scope);
    let outcome = choose|outcome: Result<Vec<u8>, i32>|
        #[trigger] sealing(sealed, outcome) && Ok::<Vec<u8>, ProtectionError>(ciphertext)
            == concluded_ciphertext(outcome);
    assert(outcome == Ok::<Vec<u8>, i32>(ciphertext));
}

/// What `unprotect` returns is the service's refusal, where the ciphertext
/// or the entropy cannot be described, and else the report of an outcome
/// that the primitive gave to the call that carries both in full.
pub proof fn lemma_unprotected<'a>(
    opening: spec_fn(PrimitiveCall<'a>, Result<Vec<u8>, i32>) -> bool,
    ciphertext: &'a [u8],
    entropy: Option<&'a [u8]>,
    result: Result<Vec<u8>, ProtectionError>,
) -> (outcome: Result<Vec<u8>, i32>)
    requires
        unprotect_yields(opening, ciphertext, entropy, result),
    ensures
        !describable(ciphertext@, bytes_of(entropy)) ==> result is Err,
        describable(ciphertext@, bytes_of(entropy)) ==> opening(
            unprotect_call_of(ciphertext, entropy),
            outcome,
        ) && result == concluded(outcome),
        unprotect_call_of(ciphertext, entropy)@ == (CallView {
            data: ciphertext@,
            entropy: bytes_of(entropy),
            flags: unprotect_flags(),
        }),
{
    lemma_call_views(ciphertext, entropy, Scope::UserScope);
    let opened = unprotect_call_of(ciphertext, entropy);
    choose|outcome: Result<Vec<u8>, i32>|
        #[trigger] opening(opened, outcome) && result == concluded(outcome)
}

/// Round trip, for every payload and every entropy. Over a pair that
/// recovers what was protected with the flags of `scope`: if `protect`
/// returned `ciphertext` for `payload` and `entropy`, then `unprotect` of
/// that ciphertext with the same entropy returns the payload.
pub proof fn law_round_trip<'a>(
    sealing: spec_fn(PrimitiveCall<'a>, Result<Vec<u8>, i32>) -> bool,
    opening: spec_fn(PrimitiveCall<'a>, Result<Vec<u8>, i32>) -> bool,
    payload: &'a [u8],
    entropy: Option<&'a [u8]>,
    scope: Scope,
    ciphertext: Vec<u8>,
    presented: &'a [u8],
    recovered: Result<Vec<u8>, ProtectionError>,
)
    requires
        recovers(sealing, opening, protect_flags(scope)),
        protect_yields(sealing, payload, entropy, scope, Ok(ciphertext)),
        presented@ == ciphertext@,
        unprotect_yields(opening, presented, entropy, recovered),
    ensures
        recovered matches Ok(bytes) && bytes@ == payload@,
{
    lemma_protected(sealing, payload, entropy, scope, ciphertext);
    let outcome = lemma_unprotected(opening, presented, entropy, recovered);
    assert(opening(unprotect_call_of(presented, entropy), outcome));
}

/// A payload is protected whole or not at all. Where `protect` returned a
/// ciphertext, the primitive was handed the whole payload and the whole
/// entropy, and the ciphertext is one that `unprotect` accepts; where the
/// payload or the entropy has 2^32 bytes or more, `protect` returns an error,
/// whatever the primitive would do.
pub proof fn law_protects_whole_payload<'a>(
    sealing: spec_fn(PrimitiveCall<'a>, Result<Vec<u8>, i32>) -> bool,
    payload: &'a [u8],
    entropy: Option<&'a [u8]>,
    scope: Scope,
    result: Result<Vec<u8>, ProtectionError>,
)
    requires
        protect_yields(sealing, payload, entropy, scope, result),
    ensures
        !describable(payload@, bytes_of(entropy)) ==> result is Err,
        result matches Ok(ciphertext) ==> fits(ciphertext@) && sealing(
            protect_call_of(payload, entropy, scope),
            Ok(ciphertext),
        ) && protect_call_of(payload, entropy, scope)@.data == payload@ && protect_call_of(
            payload,
            entropy,
            scope,
        )@.entropy == bytes_of(entropy),
{
    match result {
        Ok(ciphertext) => {
            lemma_protected(sealing, payload, entropy, scope, ciphertext);
        },
        Err(_) => {},
    }
}

/// Round trip with entropy, for the current user: `law_round_trip` where an
/// entropy is given and the scope is `UserScope`.
pub proof fn law_round_trip_with_entropy<'a>(
    sealing: spec_fn(PrimitiveCall<'a>, Result<Vec<u8>, i32>) -> bool,
    opening: spec_fn(PrimitiveCall<'a>, Result<Vec<u8>, i32>) -> bool,
    payload: &'a [u8],
    entropy: &'a [u8],
    ciphertext: Vec<u8>,
    presented: &'a [u8],
    recovered: Result<Vec<u8>, ProtectionError>,
)
    requires
        recovers(sealing, opening, protect_flags(Scope::UserScope)),
        protect_yields(sealing, payload, Some(entropy), Scope::UserScope, Ok(ciphertext)),
        presented@ == ciphertext@,
        unprotect_yields(opening, presented, Some(entropy), recovered),
    ensures
        recovered matches Ok(bytes) && bytes@ == payload@,
{
    law_round_trip(
        sealing,
        opening,
        payload,
        Some(entropy),
        Scope::UserScope,
        ciphertext,
        presented,
        recovered,
    );
}

/// Round trip without entropy, for the current user: `law_round_trip` where
/// no entropy is given and the scope is `UserScope`.
pub proof fn law_round_trip_without_entropy<'a>(
    sealing: spec_fn(PrimitiveCall<'a>, Result<Vec<u8>, i32>) -> bool,
    opening: spec_fn(PrimitiveCall<'a>, Result<Vec<u8>, i32>) -> bool,
    payload: &'a [u8],
    ciphertext: Vec<u8>,
    presented: &'a [u8],
    recovered: Result<Vec<u8>, ProtectionError>,
)
    requires
        recovers(sealing, opening, protect_flags(Scope::UserScope)),
        protect_yields(sealing, payload, None, Scope::UserScope, Ok(ciphertext)),
        presented@ == ciphertext@,
        unprotect_yields(opening, presented, None, recovered),
    ensures
        recovered matches Ok(bytes) && bytes@ == payload@,
{
    law_round_trip(
        sealing,
        opening,
        payload,
        None,
        Scope::UserScope,
        ciphertext,
        presented,
        recovered,
    );
}

/// Round trip without entropy, for the machine: `law_round_trip` where no
/// entropy is given and the scope is `MachineScope`. That the caller has the
/// rights and is on the same machine is part of what `recovers` asks of the
/// pair for the machine flags.
pub proof fn law_round_trip_machine_scope<'a>(
    sealing: spec_fn(PrimitiveCall<'a>, Result<Vec<u8>, i32>) -> bool,
    opening: spec_fn(PrimitiveCall<'a>, Result<Vec<u8>, i32>) -> bool,
    payload: &'a [u8],
    ciphertext: Vec<u8>,
    presented: &'a [u8],
    recovered: Result<Vec<u8>, ProtectionError>,
)
    requires
        recovers(sealing, opening, protect_flags(Scope::MachineScope)),
        protect_yields(sealing, payload, None, Scope::MachineScope, Ok(ciphertext)),
        presented@ == ciphertext@,
        unprotect_yields(opening, presented, None, recovered),
    ensures
        recovered matches Ok(bytes) && bytes@ == payload@,
{
    law_round_trip(
        sealing,
        opening,
        payload,
        None,
        Scope::MachineScope,
        ciphertext,
        presented,
        recovered,
    );
}

/// Entropy binding, for every payload, every ciphertext and every two
/// entropies. Over a pair that binds the entropy: if `protect` returned
/// `ciphertext` under the entropy `bound`, then `unprotect` of that
/// ciphertext with a different entropy `offered` fails, also where one of the
/// two is absent.
pub proof fn law_entropy_binding<'a>(
    sealing: spec_fn(PrimitiveCall<'a>, Result<Vec<u8>, i32>) -> bool,
    opening: spec_fn(PrimitiveCall<'a>, Result<Vec<u8>, i32>) -> bool,
    payload: &'a [u8],
    bound: Option<&'a [u8]>,
    scope: Scope,
    ciphertext: Vec<u8>,
    presented: &'a [u8],
    offered: Option<&'a [u8]>,
    recovered: Result<Vec<u8>, ProtectionError>,
)
    requires
        binds_entropy(sealing, opening),
        bytes_of(bound) != bytes_of(offered),
        protect_yields(sealing, payload, bound, scope, Ok(ciphertext)),
        presented@ == ciphertext@,
        unprotect_yields(opening, presented, offered, recovered),
    ensures
        recovered is Err,
{
    lemma_protected(sealing, payload, bound, scope, ciphertext);
    let outcome = lemma_unprotected(opening, presented, offered, recovered);
    if describable(presented@, bytes_of(offered)) {
        assert(opening(unprotect_call_of(presented, offered), outcome));
    }
}

/// Two protections of one payload. The primitive may answer two equal calls
/// with two different ciphertexts; over a pair that recovers what was
/// protected, each of them round-trips to the payload on its own.
pub proof fn law_each_ciphertext_round_trips<'a>(
    sealing: spec_fn(PrimitiveCall<'a>, Result<Vec<u8>, i32>) -> bool,
    opening: spec_fn(PrimitiveCall<'a>, Result<Vec<u8>, i32>) -> bool,
    payload: &'a [u8],
    entropy: Option<&'a [u8]>,
    scope: Scope,
    first: Vec<u8>,
    second: Vec<u8>,
    first_presented: &'a [u8],
    second_presented: &'a [u8],
    first_recovered: Result<Vec<u8>, ProtectionError>,
    second_recovered: Result<Vec<u8>, ProtectionError>,
)
    requires
        recovers(sealing, opening, protect_flags(scope)),
        protect_yields(sealing, payload, entropy, scope, Ok(first)),
        protect_yields(sealing, payload, entropy, scope, Ok(second)),
        first_presented@ == first@,
        second_presented@ == second@,
        unprotect_yields(opening, first_presented, entropy, first_recovered),
        unprotect_yields(opening, second_presented, entropy, second_recovered),
    ensures
        first_recovered matches Ok(bytes) && bytes@ == payload@,
        second_recovered matches Ok(bytes) && bytes@ == payload@,
{
    law_round_trip(
        sealing,
        opening,
        payload,
        entropy,
        scope,
        first,
        first_presented,
        first_recovered,
    );
    law_round_trip(
        sealing,
        opening,
        payload,
        entropy,
        scope,
        second,
        second_presented,
        second_recovered,
    );
}

/// No bytes on failure. Bytes that `unprotect` returns are bytes that the
/// primitive gave to the call of `unprotect_call_of`. Where the primitive
/// fails on that call, and where the service refuses the call, `unprotect`
/// returns an error and no bytes at all; the error of the primitive keeps
/// its code.
pub proof fn law_no_bytes_on_failure<'a>(
    opening: spec_fn(PrimitiveCall<'a>, Result<Vec<u8>, i32>) -> bool,
    ciphertext: &'a [u8],
    entropy: Option<&'a [u8]>,
    result: Result<Vec<u8>, ProtectionError>,
)
    requires
        unprotect_yields(opening, ciphertext, entropy, result),
    ensures
        match result {
            Ok(bytes) => describable(ciphertext@, bytes_of(entropy)) && opening(
                unprotect_call_of(ciphertext, entropy),
                Ok(bytes),
            ),
            Err(error) => if describable(ciphertext@, bytes_of(entropy)) {
                opening(unprotect_call_of(ciphertext, entropy), Err(error.code))
            } else {
                error.code == TOO_LONG
            },
        },
        (forall|outcome: Result<Vec<u8>, i32>| #[trigger]
            opening(unprotect_call_of(ciphertext, entropy), outcome) ==> outcome is Err)
            ==> result is Err,
{
    let outcome = lemma_unprotected(opening, ciphertext, entropy, result);
    if describable(ciphertext@, bytes_of(entropy)) {
        match outcome {
            Ok(bytes) => {
                assert(result == Ok::<Vec<u8>, ProtectionError>(bytes));
            },
            Err(code) => {
                assert(result == Err::<Vec<u8>, ProtectionError>(ProtectionError { code }));
            },
        }
    }
}

} // verus!
