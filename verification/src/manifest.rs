//! What a plugin declares of itself, and what it was granted.

use vstd::prelude::*;

verus! {

/// At which point of the gateway's work a plugin is called.
#[derive(Clone, Copy, Debug, PartialEq, Eq, Structural)]
pub enum Stage {
    Registration,
    Configuration,
    Request,
    Attempt,
    Execution,
    Observation,
    Management,
    PublicManagement,
    Maintenance,
}

/// What a plugin may reach through the host.
#[derive(Clone, Copy, Debug, PartialEq, Eq, Structural)]
pub enum Permission {
    Network,
    Models,
    Accounts,
    Requests,
    /// Any other permission.
    Other,
}

/// What a plugin contributes.
#[derive(Clone, Copy, Debug, PartialEq, Eq, Structural)]
pub enum Capability {
    Executor,
    Authentication,
    AccountManagement,
    Models,
    Quota,
    Billing,
    RequestProfile,
    Maintenance,
    /// Any other contribution.
    Other,
}

/// What a provider can do with the credentials of an account.
#[derive(Clone, Copy, Debug, PartialEq, Eq, Structural)]
pub enum CredentialOperation {
    Import,
    Rotate,
    Login,
    Refresh,
    Export,
}

/// What a provider can do with an account.
#[derive(Clone, Copy, Debug, PartialEq, Eq, Structural)]
pub enum AccountOperation {
    Profile,
    Subscription,
    Avatar,
    ResetCredits,
    ConsumeResetCredit,
    Unavailable,
    FactsChanged,
}

/// How a capability is contributed.
pub struct CapabilityDeclaration {
    pub capability: Capability,
    pub stages: Vec<Stage>,
    pub input_formats: Vec<String>,
    pub output_formats: Vec<String>,
}

/// What a plugin declares of itself: each capability at most once.
pub struct Manifest {
    pub contributes: Vec<CapabilityDeclaration>,
}

/// The first declaration of a capability.
pub open spec fn declaration_in(
    declarations: Seq<CapabilityDeclaration>,
    capability: Capability,
) -> Option<CapabilityDeclaration>
    decreases declarations.len(),
{
    if declarations.len() == 0 {
        None
    } else if declarations[0].capability == capability {
        Some(declarations[0])
    } else {
        declaration_in(declarations.skip(1), capability)
    }
}

impl Manifest {
    /// What the manifest says of a capability.
    pub open spec fn declaration(&self, capability: Capability) -> Option<CapabilityDeclaration> {
        declaration_in(self.contributes@, capability)
    }

    /// The manifest contributes a capability.
    pub open spec fn contributes_to(&self, capability: Capability) -> bool {
        self.declaration(capability) is Some
    }

    /// The manifest contributes a capability at a stage.
    pub open spec fn contributes_at(&self, capability: Capability, stage: Stage) -> bool {
        match self.declaration(capability) {
            Some(declaration) => declaration.stages@.contains(stage),
            None => false,
        }
    }

    pub fn get(&self, capability: Capability) -> (declaration: Option<&CapabilityDeclaration>)
        ensures
            declaration is Some == self.contributes_to(capability),
            declaration matches Some(d) ==> self.declaration(capability) == Some(*d),
    {
        assert(self.contributes@.skip(0) =~= self.contributes@);
        for i in 0..self.contributes.len()
            invariant
                self.declaration(capability) == declaration_in(
                    self.contributes@.skip(i as int),
                    capability,
                ),
        {
            proof {
                let rest = self.contributes@.skip(i as int);
                assert(rest[0] == self.contributes@[i as int]);
                assert(rest.skip(1) =~= self.contributes@.skip(i + 1));
            }
            if self.contributes[i].capability == capability {
                return Some(&self.contributes[i]);
            }
        }
        None
    }

    pub fn declares(&self, capability: Capability) -> (r: bool)
        ensures
            r == self.contributes_to(capability),
    {
        self.get(capability).is_some()
    }

    pub fn declares_at(&self, capability: Capability, stage: Stage) -> (r: bool)
        ensures
            r == self.contributes_at(capability, stage),
    {
        match self.get(capability) {
            Some(declaration) => has_stage(&declaration.stages, stage),
            None => false,
        }
    }
}

/// Whether a list of stages holds a stage.
pub fn has_stage(stages: &Vec<Stage>, stage: Stage) -> (r: bool)
    ensures
        r == stages@.contains(stage),
{
    for i in 0..stages.len()
        invariant
            forall|j: int| 0 <= j < i ==> stages@[j] != stage,
    {
        if stages[i] == stage {
            return true;
        }
    }
    false
}

/// Whether a list of permissions holds a permission.
pub fn has_permission(permissions: &Vec<Permission>, permission: Permission) -> (r: bool)
    ensures
        r == permissions@.contains(permission),
{
    for i in 0..permissions.len()
        invariant
            forall|j: int| 0 <= j < i ==> permissions@[j] != permission,
    {
        if permissions[i] == permission {
            return true;
        }
    }
    false
}

/// Whether a list of credential operations holds an operation.
pub fn has_credential_operation(
    operations: &Vec<CredentialOperation>,
    operation: CredentialOperation,
) -> (r: bool)
    ensures
        r == operations@.contains(operation),
{
    for i in 0..operations.len()
        invariant
            forall|j: int| 0 <= j < i ==> operations@[j] != operation,
    {
        if operations[i] == operation {
            return true;
        }
    }
    false
}

/// Whether a list of account operations holds an operation.
pub fn has_account_operation(operations: &Vec<AccountOperation>, operation: AccountOperation) -> (r:
    bool)
    ensures
        r == operations@.contains(operation),
{
    for i in 0..operations.len()
        invariant
            forall|j: int| 0 <= j < i ==> operations@[j] != operation,
    {
        if operations[i] == operation {
            return true;
        }
    }
    false
}

/// What a manifest says of a capability is its first declaration of it; it contributes exactly those
/// that it declares, at exactly the stages that are named there.
pub proof fn first_declaration_counts(manifest: Manifest, capability: Capability, stage: Stage)
    ensures
        manifest.contributes_to(capability) <==> exists|k: int|
            0 <= k < manifest.contributes@.len() && (#[trigger] manifest.contributes@[k]).capability
                == capability,
        forall|k: int|
            0 <= k < manifest.contributes@.len() && (#[trigger] manifest.contributes@[k]).capability
                == capability && is_first(manifest.contributes@, k) ==> manifest.declaration(
                capability,
            ) == Some(manifest.contributes@[k]) && (manifest.contributes_at(capability, stage)
                <==> manifest.contributes@[k].stages@.contains(stage)),
        !manifest.contributes_to(capability) ==> !manifest.contributes_at(capability, stage),
{
    lemma_first_declaration(manifest.contributes@, capability);
}

/// No declaration before one at a place is of the same capability.
pub open spec fn is_first(declarations: Seq<CapabilityDeclaration>, k: int) -> bool {
    forall|j: int|
        0 <= j < k ==> (#[trigger] declarations[j]).capability != declarations[k].capability
}

proof fn lemma_first_declaration(
    declarations: Seq<CapabilityDeclaration>,
    capability: Capability,
)
    ensures
        declaration_in(declarations, capability) is Some <==> exists|k: int|
            0 <= k < declarations.len() && (#[trigger] declarations[k]).capability == capability,
        forall|k: int|
            0 <= k < declarations.len() && (#[trigger] declarations[k]).capability == capability
                && is_first(declarations, k) ==> declaration_in(declarations, capability) == Some(
                declarations[k],
            ),
    decreases declarations.len(),
{
    if declarations.len() > 0 {
        let rest = declarations.skip(1);
        lemma_first_declaration(rest, capability);
        if exists|k: int| 0 <= k < rest.len() && (#[trigger] rest[k]).capability == capability {
            let k = choose|k: int|
                0 <= k < rest.len() && (#[trigger] rest[k]).capability == capability;
            assert(declarations[k + 1].capability == capability);
        }
        assert forall|k: int|
            0 <= k < declarations.len() && (#[trigger] declarations[k]).capability == capability
                && is_first(declarations, k) implies declaration_in(declarations, capability)
            == Some(declarations[k]) by {
            if k > 0 {
                assert(declarations[0].capability != capability);
                assert(rest[k - 1] == declarations[k]);
                assert(is_first(rest, k - 1)) by {
                    assert forall|j: int| 0 <= j < k - 1 implies (#[trigger] rest[j]).capability
                        != rest[k - 1].capability by {
                        assert(rest[j] == declarations[j + 1]);
                    }
                }
            }
        }
        if exists|k: int|
            0 <= k < declarations.len() && (#[trigger] declarations[k]).capability == capability {
            let k = choose|k: int|
                0 <= k < declarations.len() && (#[trigger] declarations[k]).capability
                    == capability;
            if k > 0 {
                assert(rest[k - 1].capability == capability);
            }
        }
    }
}

} // verus!
