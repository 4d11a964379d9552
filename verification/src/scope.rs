//! The scope of a protection and the flags that select it.

use vstd::prelude::*;

verus! {

/// The identity that a protected secret is tied to.
#[derive(Clone, Copy, Debug, PartialEq, Eq, Structural)]
pub enum Scope {
    /// The secret is tied to the calling user's logon.
    UserScope,
    /// The secret is tied to the local machine.
    MachineScope,
}

/// The flag that forbids any interactive prompt.
pub const SUPPRESS_UI: u32 = 0x1;

/// The flag that asks for machine-wide protection.
pub const MACHINE_SCOPE: u32 = 0x4;

/// The flags of a `protect` call under `scope`: prompts are always
/// forbidden, and the machine flag is added for `MachineScope` only.
pub open spec fn protect_flags(scope: Scope) -> u32 {
    match scope {
        Scope::UserScope => SUPPRESS_UI,
        Scope::MachineScope => SUPPRESS_UI | MACHINE_SCOPE,
    }
}

/// The flags of every `unprotect` call: prompts are forbidden, and the
/// primitive finds the scope in the ciphertext.
pub open spec fn unprotect_flags() -> u32 {
    SUPPRESS_UI
}

/// Whether every bit of `flag` is set in `flags`.
pub open spec fn has_flag(flags: u32, flag: u32) -> bool {
    flags & flag == flag
}

impl Scope {
    /// The scope that a `machine_scope` switch selects.
    pub open spec fn of_machine_scope(machine_scope: bool) -> Scope {
        if machine_scope {
            Scope::MachineScope
        } else {
            Scope::UserScope
        }
    }

    /// The scope that a `machine_scope` switch selects: the machine where it
    /// is set, the current user where it is not.
    pub fn from_machine_scope(machine_scope: bool) -> (scope: Scope)
        ensures
            scope == Scope::of_machine_scope(machine_scope),
    {
        if machine_scope {
            Scope::MachineScope
        } else {
            Scope::UserScope
        }
    }

    /// Whether this is the machine scope.
    pub fn is_machine(&self) -> (machine: bool)
        ensures
            machine == (*self == Scope::MachineScope),
    {
        match self {
            Scope::UserScope => false,
            Scope::MachineScope => true,
        }
    }
}

/// The bits of the two protection flags: the flags of a user-scope call are
/// 1, those of a machine-scope call are 5, and the machine flag is set in the
/// second only.
pub proof fn lemma_flag_bits()
    ensures
        protect_flags(Scope::UserScope) == 1,
        protect_flags(Scope::MachineScope) == 5,
        unprotect_flags() == 1,
        forall|scope: Scope| has_flag(#[trigger] protect_flags(scope), SUPPRESS_UI),
        forall|scope: Scope|
            has_flag(#[trigger] protect_flags(scope), MACHINE_SCOPE) <==> scope
                == Scope::MachineScope,
        has_flag(unprotect_flags(), SUPPRESS_UI),
        !has_flag(unprotect_flags(), MACHINE_SCOPE),
{
    assert(1u32 | 4u32 == 5u32) by (bit_vector);
    assert(1u32 & 1u32 == 1u32) by (bit_vector);
    assert(5u32 & 1u32 == 1u32) by (bit_vector);
    assert(1u32 & 4u32 == 0u32) by (bit_vector);
    assert(5u32 & 4u32 == 4u32) by (bit_vector);
}

/// Computes the flags of a `protect` call under `scope`.
pub fn protection_flags(scope: Scope) -> (flags: u32)
    ensures
        flags == protect_flags(scope),
        has_flag(flags, SUPPRESS_UI),
        has_flag(flags, MACHINE_SCOPE) <==> scope == Scope::MachineScope,
{
    proof {
        lemma_flag_bits();
    }
    let mut flags: u32 = SUPPRESS_UI;
    if scope.is_machine() {
        flags |= MACHINE_SCOPE;
    }
    flags
}

/// Computes the flags of an `unprotect` call.
pub fn unprotection_flags() -> (flags: u32)
    ensures
        flags == unprotect_flags(),
        has_flag(flags, SUPPRESS_UI),
        !has_flag(flags, MACHINE_SCOPE),
{
    proof {
        lemma_flag_bits();
    }
    SUPPRESS_UI
}

} // verus!
