use dpapi::blob::{descriptor_length, take_blob, to_blob};
use dpapi::protection::{
    conclude, conclude_ciphertext, dpapi_protect, dpapi_unprotect, protect, protect_call,
    protect_default, unprotect, unprotect_call, PrimitiveCall, ProtectionError, TOO_LONG,
};
use dpapi::scope::{protection_flags, unprotection_flags, Scope, MACHINE_SCOPE, SUPPRESS_UI};

/// The code with which the stand-in primitive refuses a malformed ciphertext.
const INVALID_DATA: i32 = -2147024883;

/// The code with which the stand-in primitive refuses a wrong entropy.
const BAD_ENTROPY: i32 = -2146893813;

/// The mask byte of the stand-in primitive.
const MASK: u8 = 0xA5;

/// A zeroed buffer of `len` bytes, or `None` where this machine cannot
/// provide one. The buffer is never written to, so it costs address space
/// only. A test that needs a buffer of 2^32 bytes ends early where there is
/// none; `descriptor_length_is_the_length_up_to_32_bits` tests the same limit
/// on every machine.
fn zeroed(len: usize) -> Option<Vec<u8>> {
    let mut probe: Vec<u8> = Vec::new();
    if probe.try_reserve_exact(len).is_err() {
        return None;
    }
    drop(probe);
    Some(vec![0u8; len])
}

/// One byte more than a descriptor can cover.
const OVERSIZE: usize = u32::MAX as usize + 1;

/// A stand-in for the protecting primitive. Its ciphertext holds the nonce,
/// the flags, the entropy it was bound to, and the masked payload.
fn seal(call: PrimitiveCall<'_>, nonce: u8) -> Result<Vec<u8>, i32> {
    let flags = call.flags;
    let mut out = vec![nonce, flags as u8];
    match call.entropy {
        Some(entropy) => {
            out.push(1);
            out.extend_from_slice(&entropy.length().to_le_bytes());
            out.extend_from_slice(entropy.bytes());
        }
        None => {
            out.push(0);
            out.extend_from_slice(&0u32.to_le_bytes());
        }
    }
    for byte in take_blob(call.data) {
        out.push(byte ^ MASK ^ nonce);
    }
    Ok(out)
}

/// A stand-in for the unprotecting primitive, the reverse of `seal`.
fn open(call: PrimitiveCall<'_>) -> Result<Vec<u8>, i32> {
    let offered: Option<Vec<u8>> = call.entropy.map(take_blob);
    let sealed = take_blob(call.data);
    if sealed.len() < 7 {
        return Err(INVALID_DATA);
    }
    let nonce = sealed[0];
    let bound_present = sealed[2] == 1;
    let bound_len = u32::from_le_bytes([sealed[3], sealed[4], sealed[5], sealed[6]]) as usize;
    if sealed.len() < 7 + bound_len {
        return Err(INVALID_DATA);
    }
    let bound: Option<Vec<u8>> = if bound_present {
        Some(sealed[7..7 + bound_len].to_vec())
    } else {
        None
    };
    if bound != offered {
        return Err(BAD_ENTROPY);
    }
    Ok(sealed[7 + bound_len..].iter().map(|byte| byte ^ MASK ^ nonce).collect())
}

#[test]
fn roundtrip_protect() {
    let data = b"secret";
    let ent = Some(b"entropy".as_ref());
    let enc = protect(data, ent, Scope::UserScope, |call| seal(call, 1)).unwrap();
    let dec = unprotect(&enc, ent, open).unwrap();
    assert_eq!(dec, data);
}

#[test]
fn roundtrip_no_entropy() {
    let data = b"secret without entropy";
    let enc = protect(data, None, Scope::UserScope, |call| seal(call, 1)).unwrap();
    let dec = unprotect(&enc, None, open).unwrap();
    assert_eq!(dec, data);
}

#[test]
fn roundtrip_machine_scope() {
    let data = b"machine secret";
    let enc = protect(data, None, Scope::MachineScope, |call| seal(call, 1)).unwrap();
    let dec = unprotect(&enc, None, open).unwrap();
    assert_eq!(dec, data);
}

#[test]
fn roundtrip_user_scope() {
    let data = b"secret";
    let ent = Some(b"entropy".as_ref());
    let enc = dpapi_protect(data, ent, false, |call| seal(call, 1)).unwrap();
    let dec = dpapi_unprotect(&enc, ent, open).unwrap();
    assert_eq!(dec, data);
}

#[test]
fn flags_have_their_exact_values() {
    assert_eq!(SUPPRESS_UI, 1);
    assert_eq!(MACHINE_SCOPE, 4);
    assert_eq!(protection_flags(Scope::UserScope), 1);
    assert_eq!(protection_flags(Scope::MachineScope), 5);
    assert_eq!(unprotection_flags(), 1);
}

#[test]
fn scope_follows_the_machine_switch() {
    assert_eq!(Scope::from_machine_scope(false), Scope::UserScope);
    assert_eq!(Scope::from_machine_scope(true), Scope::MachineScope);
    assert!(!Scope::UserScope.is_machine());
    assert!(Scope::MachineScope.is_machine());
}

#[test]
fn descriptor_covers_the_whole_buffer() {
    let buffer = [1u8, 2, 3, 4, 5];
    let blob = to_blob(&buffer).unwrap();
    assert_eq!(blob.length(), 5);
    assert_eq!(blob.bytes(), &buffer);
    assert_eq!(take_blob(blob), vec![1u8, 2, 3, 4, 5]);
}

#[test]
fn descriptor_of_an_empty_buffer() {
    let buffer: [u8; 0] = [];
    let blob = to_blob(&buffer).unwrap();
    assert_eq!(blob.length(), 0);
    assert!(blob.bytes().is_empty());
    assert_eq!(take_blob(blob), Vec::<u8>::new());
}

#[test]
fn take_blob_gives_an_independent_copy() {
    let mut buffer = vec![9u8, 8, 7];
    let owned = take_blob(to_blob(&buffer).unwrap());
    buffer[0] = 0;
    assert_eq!(owned, vec![9u8, 8, 7]);
}

#[test]
fn protect_call_carries_payload_entropy_and_flags() {
    let call = protect_call(b"payload", Some(b"salt".as_ref()), Scope::MachineScope).unwrap();
    assert_eq!(call.data.bytes(), b"payload");
    assert_eq!(call.data.length(), 7);
    assert_eq!(call.entropy.as_ref().map(|blob| blob.bytes()), Some(b"salt".as_ref()));
    assert_eq!(call.flags, 5);
}

#[test]
fn protect_call_without_entropy_has_no_entropy_descriptor() {
    let call = protect_call(b"payload", None, Scope::UserScope).unwrap();
    assert_eq!(call.data.bytes(), b"payload");
    assert!(call.entropy.is_none());
    assert_eq!(call.flags, 1);
}

#[test]
fn unprotect_call_only_forbids_prompts() {
    let call = unprotect_call(b"cipher", Some(b"salt".as_ref())).unwrap();
    assert_eq!(call.data.bytes(), b"cipher");
    assert_eq!(call.entropy.as_ref().map(|blob| blob.bytes()), Some(b"salt".as_ref()));
    assert_eq!(call.flags, 1);
    let bare = unprotect_call(b"cipher", None).unwrap();
    assert!(bare.entropy.is_none());
    assert_eq!(bare.flags, 1);
}

#[test]
fn conclude_passes_bytes_and_codes_on() {
    assert_eq!(conclude(Ok(vec![1, 2, 3])), Ok(vec![1, 2, 3]));
    assert_eq!(conclude(Ok(Vec::new())), Ok(Vec::new()));
    assert_eq!(conclude(Err(-5)), Err(ProtectionError { code: -5 }));
    assert_eq!(conclude(Err(0)), Err(ProtectionError { code: 0 }));
}

#[test]
fn protect_hands_the_primitive_exactly_its_call() {
    let result = protect(b"abc", Some(b"xy".as_ref()), Scope::MachineScope, |call| {
        assert_eq!(call.data.bytes(), b"abc");
        assert_eq!(call.entropy.as_ref().map(|blob| blob.bytes()), Some(b"xy".as_ref()));
        assert_eq!(call.flags, 5);
        Ok(vec![42])
    });
    assert_eq!(result, Ok(vec![42]));
}

#[test]
fn unprotect_hands_the_primitive_exactly_its_call() {
    let result = unprotect(b"abc", None, |call| {
        assert_eq!(call.data.bytes(), b"abc");
        assert!(call.entropy.is_none());
        assert_eq!(call.flags, 1);
        Ok(vec![7, 7])
    });
    assert_eq!(result, Ok(vec![7, 7]));
}

#[test]
fn protect_reports_the_failure_code_of_the_primitive() {
    let result = protect(b"abc", None, Scope::UserScope, |_call| Err(-2147024891));
    assert_eq!(result, Err(ProtectionError { code: -2147024891 }));
}

#[test]
fn protect_default_is_user_scope_without_entropy() {
    let result = protect_default(b"abc", |call| {
        assert!(call.entropy.is_none());
        assert_eq!(call.flags, 1);
        seal(call, 3)
    });
    let enc = result.unwrap();
    assert_eq!(unprotect(&enc, None, open), Ok(b"abc".to_vec()));
}

#[test]
fn dpapi_protect_sets_the_machine_flag_only_when_asked() {
    let user = dpapi_protect(b"abc", None, false, |call| Ok(vec![call.flags as u8])).unwrap();
    let machine = dpapi_protect(b"abc", None, true, |call| Ok(vec![call.flags as u8])).unwrap();
    assert_eq!(user, vec![1]);
    assert_eq!(machine, vec![5]);
}

#[test]
fn unprotect_with_other_entropy_fails() {
    let enc = protect(b"secret", Some(b"one".as_ref()), Scope::UserScope, |call| seal(call, 1))
        .unwrap();
    let wrong = unprotect(&enc, Some(b"two".as_ref()), open);
    assert_eq!(wrong, Err(ProtectionError { code: BAD_ENTROPY }));
}

#[test]
fn unprotect_with_entropy_for_an_unbound_ciphertext_fails() {
    let enc = protect(b"secret", None, Scope::UserScope, |call| seal(call, 1)).unwrap();
    let wrong = unprotect(&enc, Some(b"entropy".as_ref()), open);
    assert_eq!(wrong, Err(ProtectionError { code: BAD_ENTROPY }));
}

#[test]
fn two_protections_differ_and_both_round_trip() {
    let ent = Some(b"entropy".as_ref());
    let first = protect(b"secret", ent, Scope::UserScope, |call| seal(call, 1)).unwrap();
    let second = protect(b"secret", ent, Scope::UserScope, |call| seal(call, 2)).unwrap();
    assert_ne!(first, second);
    assert_eq!(unprotect(&first, ent, open), Ok(b"secret".to_vec()));
    assert_eq!(unprotect(&second, ent, open), Ok(b"secret".to_vec()));
}

#[test]
fn failed_unprotect_returns_only_the_error() {
    let truncated = unprotect(&[1u8, 1, 0], None, open);
    assert_eq!(truncated, Err(ProtectionError { code: INVALID_DATA }));
    assert!(truncated.ok().is_none());
    let refused = unprotect(b"whatever", None, |_call| Err(-1));
    assert_eq!(refused, Err(ProtectionError { code: -1 }));
}

#[test]
fn secret_with_entropy_scenario() {
    let ent = Some(b"entropy".as_ref());
    let c = protect(b"secret", ent, Scope::UserScope, |call| seal(call, 9)).unwrap();
    assert!(!c.is_empty());
    assert_ne!(c, b"secret".to_vec());
    assert_eq!(unprotect(&c, ent, open), Ok(b"secret".to_vec()));
    assert!(unprotect(&c, None, open).is_err());
}

#[test]
fn empty_payload_round_trips() {
    let enc = protect(b"", None, Scope::UserScope, |call| seal(call, 1)).unwrap();
    assert_eq!(unprotect(&enc, None, open), Ok(Vec::new()));
}

#[test]
fn too_long_has_its_exact_value() {
    assert_eq!(TOO_LONG, -2147024872);
    assert_eq!(TOO_LONG as u32, 0x8007_0018);
}

#[test]
fn conclude_ciphertext_passes_bytes_and_codes_on() {
    assert_eq!(conclude_ciphertext(Ok(vec![1, 2, 3])), Ok(vec![1, 2, 3]));
    assert_eq!(conclude_ciphertext(Ok(Vec::new())), Ok(Vec::new()));
    assert_eq!(conclude_ciphertext(Err(-5)), Err(ProtectionError { code: -5 }));
}

#[test]
fn conclude_ciphertext_refuses_an_output_that_cannot_be_presented() {
    let Some(output) = zeroed(OVERSIZE) else {
        return;
    };
    assert_eq!(conclude_ciphertext(Ok(output)), Err(ProtectionError { code: TOO_LONG }));
}

#[test]
fn oversize_buffer_has_no_descriptor() {
    let Some(buffer) = zeroed(OVERSIZE) else {
        return;
    };
    assert!(to_blob(&buffer).is_none());
    assert!(protect_call(&buffer, None, Scope::UserScope).is_none());
    assert!(protect_call(b"payload", Some(&buffer), Scope::UserScope).is_none());
    assert!(unprotect_call(&buffer, None).is_none());
    assert!(unprotect_call(b"cipher", Some(&buffer)).is_none());
}

#[test]
fn largest_buffer_is_described_in_full() {
    let Some(buffer) = zeroed(u32::MAX as usize) else {
        return;
    };
    let blob = to_blob(&buffer).unwrap();
    assert_eq!(blob.length(), u32::MAX);
    assert_eq!(blob.bytes().len(), u32::MAX as usize);
    let result = protect(&buffer, None, Scope::UserScope, |call| {
        assert_eq!(call.data.length(), u32::MAX);
        Ok(vec![1])
    });
    assert_eq!(result, Ok(vec![1]));
}

#[test]
fn protect_refuses_an_oversize_payload_before_the_call() {
    let Some(payload) = zeroed(OVERSIZE) else {
        return;
    };
    let result = protect(&payload, None, Scope::UserScope, |_call| {
        panic!("the primitive must not be called")
    });
    assert_eq!(result, Err(ProtectionError { code: TOO_LONG }));
    let switched = dpapi_protect(&payload, None, true, |_call| {
        panic!("the primitive must not be called")
    });
    assert_eq!(switched, Err(ProtectionError { code: TOO_LONG }));
    let default = protect_default(&payload, |_call| panic!("the primitive must not be called"));
    assert_eq!(default, Err(ProtectionError { code: TOO_LONG }));
}

#[test]
fn protect_refuses_an_oversize_entropy_before_the_call() {
    let Some(entropy) = zeroed(OVERSIZE) else {
        return;
    };
    let result = protect(b"secret", Some(&entropy), Scope::UserScope, |_call| {
        panic!("the primitive must not be called")
    });
    assert_eq!(result, Err(ProtectionError { code: TOO_LONG }));
}

#[test]
fn unprotect_refuses_oversize_buffers_before_the_call() {
    let Some(buffer) = zeroed(OVERSIZE) else {
        return;
    };
    let long_ciphertext = unprotect(&buffer, None, |_call| {
        panic!("the primitive must not be called")
    });
    assert_eq!(long_ciphertext, Err(ProtectionError { code: TOO_LONG }));
    let long_entropy = dpapi_unprotect(b"cipher", Some(&buffer), |_call| {
        panic!("the primitive must not be called")
    });
    assert_eq!(long_entropy, Err(ProtectionError { code: TOO_LONG }));
}

#[test]
fn protect_refuses_an_output_that_unprotect_could_not_accept() {
    let Some(output) = zeroed(OVERSIZE) else {
        return;
    };
    let result = protect(b"secret", None, Scope::UserScope, move |_call| Ok(output));
    assert_eq!(result, Err(ProtectionError { code: TOO_LONG }));
}

#[test]
fn descriptor_length_is_the_length_up_to_32_bits() {
    assert_eq!(descriptor_length(0), Some(0));
    assert_eq!(descriptor_length(5), Some(5));
    assert_eq!(descriptor_length(u32::MAX as usize - 1), Some(u32::MAX - 1));
    assert_eq!(descriptor_length(u32::MAX as usize), Some(u32::MAX));
    assert_eq!(descriptor_length(u32::MAX as usize + 1), None);
    assert_eq!(descriptor_length(2 * (u32::MAX as usize + 1) + 5), None);
    assert_eq!(descriptor_length(usize::MAX), None);
}
