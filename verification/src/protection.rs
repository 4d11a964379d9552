//! The protection service: `protect` and `unprotect` over a primitive that
//! the caller passes in.
//!
//! The service decides what the primitive is asked (which bytes, which
//! entropy, which flags) and how its answer is reported. The primitive is a
//! function from a call to either the output bytes or a failure code. A
//! buffer that no descriptor can cover is refused before the primitive is
//! called.

use crate::blob::{descriptor_length, fits, to_blob, Blob};
use crate::scope::{
    has_flag, protect_flags, protection_flags, unprotect_flags, unprotection_flags, Scope,
    MACHINE_SCOPE, SUPPRESS_UI,
};
use vstd::prelude::*;

verus! {

/// A failure of a protection call: the code that the primitive reported,
/// unchanged, or `TOO_LONG` where the service refused the call itself.
#[derive(Clone, Copy, Debug, PartialEq, Eq, Structural)]
pub struct ProtectionError {
    /// The failure code.
    pub code: i32,
}

/// The code of a call that the service refused because a buffer of it has
/// 2^32 bytes or more: the system's "bad length" failure, 0x80070018.
pub const TOO_LONG: i32 = -2147024872;

/// One call of the primitive: the data, the optional entropy and the flags.
/// The description text, the reserved pointer and the prompt structure of
/// the primitive are never passed and have no field here.
pub struct PrimitiveCall<'a> {
    /// The descriptor of the payload (to protect) or ciphertext (to unprotect).
    pub data: Blob<'a>,
    /// The descriptor of the entropy, where the caller gave one.
    pub entropy: Option<Blob<'a>>,
    /// The protection flags.
    pub flags: u32,
}

/// What a call of the primitive amounts to: the bytes that its descriptors
/// cover, and the flags.
pub struct CallView {
    pub data: Seq<u8>,
    pub entropy: Option<Seq<u8>>,
    pub flags: u32,
}

impl<'a> View for PrimitiveCall<'a> {
    type V = CallView;

    open spec fn view(&self) -> CallView {
        CallView {
            data: self.data@,
            entropy: match self.entropy {
                Some(blob) => Some(blob@),
                None => None,
            },
            flags: self.flags,
        }
    }
}

/// The bytes of an optional buffer.
pub open spec fn bytes_of(buffer: Option<&[u8]>) -> Option<Seq<u8>> {
    match buffer {
        Some(bytes) => Some(bytes@),
        None => None,
    }
}

/// Whether an optional buffer can be described.
pub open spec fn fits_if_present(bytes: Option<Seq<u8>>) -> bool {
    match bytes {
        Some(b) => fits(b),
        None => true,
    }
}

/// Whether a call with this data and this entropy can be made: each buffer
/// of it has a descriptor.
pub open spec fn describable(data: Seq<u8>, entropy: Option<Seq<u8>>) -> bool {
    fits(data) && fits_if_present(entropy)
}

/// The descriptor of an optional buffer.
pub open spec fn blob_if_present<'a>(buffer: Option<&'a [u8]>) -> Option<Blob<'a>> {
    match buffer {
        Some(bytes) => Some(Blob::over(bytes)),
        None => None,
    }
}

/// The call that `protect` makes, where the call can be made.
pub open spec fn protect_call_of<'a>(
    payload: &'a [u8],
    entropy: Option<&'a [u8]>,
    scope: Scope,
) -> PrimitiveCall<'a> {
    PrimitiveCall {
        data: Blob::over(payload),
        entropy: blob_if_present(entropy),
        flags: protect_flags(scope),
    }
}

/// The call that `unprotect` makes, where the call can be made.
pub open spec fn unprotect_call_of<'a>(
    ciphertext: &'a [u8],
    entropy: Option<&'a [u8]>,
) -> PrimitiveCall<'a> {
    PrimitiveCall {
        data: Blob::over(ciphertext),
        entropy: blob_if_present(entropy),
        flags: unprotect_flags(),
    }
}

/// What the call of `protect` amounts to: the whole payload, the whole
/// entropy, and the flags of the scope.
pub open spec fn protect_view(
    payload: Seq<u8>,
    entropy: Option<Seq<u8>>,
    scope: Scope,
) -> CallView {
    CallView { data: payload, entropy, flags: protect_flags(scope) }
}

/// What the call of `unprotect` amounts to: the whole ciphertext, the whole
/// entropy, and the flags that forbid prompts.
pub open spec fn unprotect_view(ciphertext: Seq<u8>, entropy: Option<Seq<u8>>) -> CallView {
    CallView { data: ciphertext, entropy, flags: unprotect_flags() }
}

/// The calls that the service makes amount to `protect_view` and
/// `unprotect_view`: every buffer is carried in full.
pub proof fn lemma_call_views(data: &[u8], entropy: Option<&[u8]>, scope: Scope)
    ensures
        protect_call_of(data, entropy, scope)@ == protect_view(data@, bytes_of(entropy), scope),
        unprotect_call_of(data, entropy)@ == unprotect_view(data@, bytes_of(entropy)),
{
    Blob::lemma_over(data);
    match entropy {
        Some(e) => {
            Blob::lemma_over(e);
        },
        None => {},
    }
}

/// How the answer of the primitive is reported: the output bytes as they
/// are, a failure code as a `ProtectionError` that carries it.
pub open spec fn concluded(outcome: Result<Vec<u8>, i32>) -> Result<Vec<u8>, ProtectionError> {
    match outcome {
        Ok(bytes) => Ok(bytes),
        Err(code) => Err(ProtectionError { code }),
    }
}

/// The answer of the service where a buffer has no descriptor.
pub open spec fn refused() -> Result<Vec<u8>, ProtectionError> {
    Err(ProtectionError { code: TOO_LONG })
}

/// How `protect` reports the answer of the primitive: as `concluded`, but
/// for an output of 2^32 bytes or more, which no descriptor could present to
/// `unprotect` again and which is refused.
pub open spec fn concluded_ciphertext(outcome: Result<Vec<u8>, i32>) -> Result<
    Vec<u8>,
    ProtectionError,
> {
    match outcome {
        Ok(bytes) => if fits(bytes@) {
            Ok(bytes)
        } else {
            refused()
        },
        Err(code) => Err(ProtectionError { code }),
    }
}

/// Builds the descriptor of an optional buffer: `None` where a buffer is
/// given that has no descriptor, else the descriptor or its absence.
fn to_optional_blob<'a>(buffer: Option<&'a [u8]>) -> (blob: Option<Option<Blob<'a>>>)
    ensures
        blob is Some <==> fits_if_present(bytes_of(buffer)),
        blob matches Some(b) ==> b == blob_if_present(buffer),
{
    match buffer {
        Some(bytes) => match to_blob(bytes) {
            Some(blob) => Some(Some(blob)),
            None => None,
        },
        None => Some(None),
    }
}

/// Builds the call that protects `payload`: a descriptor of the payload, a
/// descriptor of the entropy where there is one, and the flags of `scope`.
/// There is a call exactly where the payload and the entropy each have fewer
/// than 2^32 bytes.
pub fn protect_call<'a>(payload: &'a [u8], entropy: Option<&'a [u8]>, scope: Scope) -> (call:
    Option<PrimitiveCall<'a>>)
    ensures
        call is Some <==> describable(payload@, bytes_of(entropy)),
        call matches Some(c) ==> {
            &&& c == protect_call_of(payload, entropy, scope)
            &&& c@ == protect_view(payload@, bytes_of(entropy), scope)
            &&& has_flag(c.flags, SUPPRESS_UI)
            &&& has_flag(c.flags, MACHINE_SCOPE) <==> scope == Scope::MachineScope
        },
{
    proof {
        lemma_call_views(payload, entropy, scope);
    }
    let data = match to_blob(payload) {
        Some(blob) => blob,
        None => {
            return None;
        },
    };
    let entropy = match to_optional_blob(entropy) {
        Some(blob) => blob,
        None => {
            return None;
        },
    };
    Some(PrimitiveCall { data, entropy, flags: protection_flags(scope) })
}

/// Builds the call that unprotects `ciphertext`. No scope is passed: the
/// flags only forbid prompts. There is a call exactly where the ciphertext
/// and the entropy each have fewer than 2^32 bytes.
pub fn unprotect_call<'a>(ciphertext: &'a [u8], entropy: Option<&'a [u8]>) -> (call: Option<
    PrimitiveCall<'a>,
>)
    ensures
        call is Some <==> describable(ciphertext@, bytes_of(entropy)),
        call matches Some(c) ==> {
            &&& c == unprotect_call_of(ciphertext, entropy)
            &&& c@ == unprotect_view(ciphertext@, bytes_of(entropy))
            &&& has_flag(c.flags, SUPPRESS_UI)
            &&& !has_flag(c.flags, MACHINE_SCOPE)
        },
{
    proof {
        lemma_call_views(ciphertext, entropy, Scope::UserScope);
    }
    let data = match to_blob(ciphertext) {
        Some(blob) => blob,
        None => {
            return None;
        },
    };
    let entropy = match to_optional_blob(entropy) {
        Some(blob) => blob,
        None => {
            return None;
        },
    };
    Some(PrimitiveCall { data, entropy, flags: unprotection_flags() })
}

/// Reports the answer of the primitive. A failure is passed on at once, with
/// its code; a failure never yields bytes, and a success never an error.
pub fn conclude(outcome: Result<Vec<u8>, i32>) -> (result: Result<Vec<u8>, ProtectionError>)
    ensures
        result == concluded(outcome),
        result is Ok <==> outcome is Ok,
{
    match outcome {
        Ok(bytes) => Ok(bytes),
        Err(code) => Err(ProtectionError { code }),
    }
}

/// Reports the answer of the protecting primitive. The output is passed on
/// as the ciphertext where `unprotect` can accept it, and refused with
/// `TOO_LONG` where it has 2^32 bytes or more; a failure is passed on with
/// its code.
pub fn conclude_ciphertext(outcome: Result<Vec<u8>, i32>) -> (result: Result<
    Vec<u8>,
    ProtectionError,
>)
    ensures
        result == concluded_ciphertext(outcome),
        result matches Ok(ciphertext) ==> fits(ciphertext@) && outcome == Ok::<Vec<u8>, i32>(
            ciphertext,
        ),
{
    match outcome {
        Ok(bytes) => match descriptor_length(bytes.len()) {
            Some(_) => Ok(bytes),
            None => Err(ProtectionError { code: TOO_LONG }),
        },
        Err(code) => Err(ProtectionError { code }),
    }
}

/// Whether `protect` may return `result` for these arguments, where
/// `allows(call, outcome)` says which outcomes the primitive may give to
/// which call. Where the payload and the entropy can be described, the
/// primitive gave some outcome to exactly the call of `protect_call_of`, and
/// `result` reports that outcome as `concluded_ciphertext` says. Where one of
/// them cannot, `result` is the refusal, whatever the primitive would do.
pub open spec fn protect_yields<'a>(
    allows: spec_fn(PrimitiveCall<'a>, Result<Vec<u8>, i32>) -> bool,
    payload: &'a [u8],
    entropy: Option<&'a [u8]>,
    scope: Scope,
    result: Result<Vec<u8>, ProtectionError>,
) -> bool {
    if describable(payload@, bytes_of(entropy)) {
        exists|outcome: Result<Vec<u8>, i32>|
            #[trigger] allows(protect_call_of(payload, entropy, scope), outcome) && result
                == concluded_ciphertext(outcome)
    } else {
        result == refused()
    }
}

/// Whether `unprotect` may return `result` for these arguments, where
/// `allows(call, outcome)` says which outcomes the primitive may give to
/// which call. Where the ciphertext and the entropy can be described, the
/// primitive gave some outcome to exactly the call of `unprotect_call_of`,
/// and `result` reports that outcome. Where one of them cannot, `result` is
/// the refusal.
pub open spec fn unprotect_yields<'a>(
    allows: spec_fn(PrimitiveCall<'a>, Result<Vec<u8>, i32>) -> bool,
    ciphertext: &'a [u8],
    entropy: Option<&'a [u8]>,
    result: Result<Vec<u8>, ProtectionError>,
) -> bool {
    if describable(ciphertext@, bytes_of(entropy)) {
        exists|outcome: Result<Vec<u8>, i32>|
            #[trigger] allows(unprotect_call_of(ciphertext, entropy), outcome) && result
                == concluded(outcome)
    } else {
        result == refused()
    }
}

/// Protects `payload` under `scope`, bound to `entropy` where it is given.
///
/// Where the payload and the entropy each have fewer than 2^32 bytes, the
/// primitive is called once, with the call of `protect_call_of`, which
/// carries both in full. Its output is returned as the ciphertext; its
/// failure is returned as a `ProtectionError` with the same code. Nothing is
/// retried. Where one of the two is longer, the primitive is not called and
/// the error `TOO_LONG` is returned: a payload is protected whole or not at
/// all. A ciphertext that is returned has fewer than 2^32 bytes, so that
/// `unprotect` accepts it; a longer output of the primitive is refused with
/// `TOO_LONG` as well.
pub fn protect<'a, F>(
    payload: &'a [u8],
    entropy: Option<&'a [u8]>,
    scope: Scope,
    primitive: F,
) -> (result: Result<Vec<u8>, ProtectionError>) where
    F: FnOnce(PrimitiveCall<'a>) -> Result<Vec<u8>, i32>,

    requires
        describable(payload@, bytes_of(entropy)) ==> primitive.requires(
            (protect_call_of(payload, entropy, scope),),
        ),
    ensures
        protect_yields(
            |call: PrimitiveCall<'a>, outcome: Result<Vec<u8>, i32>|
                primitive.ensures((call,), outcome),
            payload,
            entropy,
            scope,
            result,
        ),
        !describable(payload@, bytes_of(entropy)) ==> result == refused(),
        result matches Ok(ciphertext) ==> fits(ciphertext@),
{
    match protect_call(payload, entropy, scope) {
        Some(call) => {
            let outcome = primitive(call);
            let ghost allows = |call: PrimitiveCall<'a>, outcome: Result<Vec<u8>, i32>|
                primitive.ensures((call,), outcome);
            assert(allows(protect_call_of(payload, entropy, scope), outcome));
            conclude_ciphertext(outcome)
        },
        None => Err(ProtectionError { code: TOO_LONG }),
    }
}

/// Recovers the payload of `ciphertext`, which was bound to `entropy` where
/// it is given.
///
/// Where the ciphertext and the entropy each have fewer than 2^32 bytes, the
/// primitive is called once, with the call of `unprotect_call_of`, which
/// carries both in full. Its output is returned as the payload; its failure
/// is returned as a `ProtectionError` with the same code, and no bytes. Where
/// one of the two is longer, the primitive is not called and the error
/// `TOO_LONG` is returned.
pub fn unprotect<'a, F>(ciphertext: &'a [u8], entropy: Option<&'a [u8]>, primitive: F) -> (result:
    Result<Vec<u8>, ProtectionError>) where F: FnOnce(PrimitiveCall<'a>) -> Result<Vec<u8>, i32>
    requires
        describable(ciphertext@, bytes_of(entropy)) ==> primitive.requires(
            (unprotect_call_of(ciphertext, entropy),),
        ),
    ensures
        unprotect_yields(
            |call: PrimitiveCall<'a>, outcome: Result<Vec<u8>, i32>|
                primitive.ensures((call,), outcome),
            ciphertext,
            entropy,
            result,
        ),
        !describable(ciphertext@, bytes_of(entropy)) ==> result == refused(),
{
    match unprotect_call(ciphertext, entropy) {
        Some(call) => {
            let outcome = primitive(call);
            let ghost allows = |call: PrimitiveCall<'a>, outcome: Result<Vec<u8>, i32>|
                primitive.ensures((call,), outcome);
            assert(allows(unprotect_call_of(ciphertext, entropy), outcome));
            conclude(outcome)
        },
        None => Err(ProtectionError { code: TOO_LONG }),
    }
}

/// Protects `payload` for the current user and without entropy.
pub fn protect_default<'a, F>(payload: &'a [u8], primitive: F) -> (result: Result<
    Vec<u8>,
    ProtectionError,
>) where F: FnOnce(PrimitiveCall<'a>) -> Result<Vec<u8>, i32>
    requires
        fits(payload@) ==> primitive.requires(
            (protect_call_of(payload, None, Scope::UserScope),),
        ),
    ensures
        protect_yields(
            |call: PrimitiveCall<'a>, outcome: Result<Vec<u8>, i32>|
                primitive.ensures((call,), outcome),
            payload,
            None,
            Scope::UserScope,
            result,
        ),
        !fits(payload@) ==> result == refused(),
        result matches Ok(ciphertext) ==> fits(ciphertext@),
{
    protect(payload, None, Scope::UserScope, primitive)
}

/// `protect` with the scope given as a switch: the machine where
/// `machine_scope` is set, the current user where it is not.
pub fn dpapi_protect<'a, F>(
    data: &'a [u8],
    optional_entropy: Option<&'a [u8]>,
    machine_scope: bool,
    primitive: F,
) -> (result: Result<Vec<u8>, ProtectionError>) where
    F: FnOnce(PrimitiveCall<'a>) -> Result<Vec<u8>, i32>,

    requires
        describable(data@, bytes_of(optional_entropy)) ==> primitive.requires(
            (protect_call_of(data, optional_entropy, Scope::of_machine_scope(machine_scope)),),
        ),
    ensures
        protect_yields(
            |call: PrimitiveCall<'a>, outcome: Result<Vec<u8>, i32>|
                primitive.ensures((call,), outcome),
            data,
            optional_entropy,
            Scope::of_machine_scope(machine_scope),
            result,
        ),
        !describable(data@, bytes_of(optional_entropy)) ==> result == refused(),
        result matches Ok(ciphertext) ==> fits(ciphertext@),
{
    protect(data, optional_entropy, Scope::from_machine_scope(machine_scope), primitive)
}

/// `unprotect` under the name that pairs with `dpapi_protect`.
pub fn dpapi_unprotect<'a, F>(
    cipher: &'a [u8],
    optional_entropy: Option<&'a [u8]>,
    primitive: F,
) -> (result: Result<Vec<u8>, ProtectionError>) where
    F: FnOnce(PrimitiveCall<'a>) -> Result<Vec<u8>, i32>,

    requires
        describable(cipher@, bytes_of(optional_entropy)) ==> primitive.requires(
            (unprotect_call_of(cipher, optional_entropy),),
        ),
    ensures
        unprotect_yields(
            |call: PrimitiveCall<'a>, outcome: Result<Vec<u8>, i32>|
                primitive.ensures((call,), outcome),
            cipher,
            optional_entropy,
            result,
        ),
        !describable(cipher@, bytes_of(optional_entropy)) ==> result == refused(),
{
    unprotect(cipher, optional_entropy, primitive)
}

} // verus!
