//! Checkpoints of conversations. A plugin hands out an opaque payload; the host binds it to the
//! account, the authorization and the plugin process that made it, and gives it back to nobody else.

use vstd::prelude::*;

use crate::fault::{
    bare_error, refused, stream_protocol_error, AdminError, AdminReason, ContinuationFailure,
    ContinuationRecoveryDisposition, ProviderError, ProviderErrorKind, UpstreamSendState,
};
use crate::identifier::{holds_uuid, is_uuid};
use crate::json::{
    copy_members, fits, members_view, put, within, Json, JsonView, NumberView,
};
use crate::record::{
    field_names, holds_only, object_field, object_part, only_fields, part, part_of, text_field,
    text_part, unsigned_field, unsigned_part,
};
use crate::text::{is_token, same, token};

verus! {

/// The most bytes that a checkpoint may take.
pub const MAX_PAYLOAD_BYTES: usize = 65536;

/// The most bytes of the name of a state format.
pub const MAX_FORMAT_BYTES: usize = 64;

/// The most versions of its state that a plugin may read.
pub const MAX_READABLE_VERSIONS: usize = 32;

/// Which conversation states a plugin writes and reads.
pub struct ContinuationStateDescriptor {
    pub format: String,
    pub write_version: u32,
    pub readable_versions: Vec<u32>,
}

/// The versions are all different, none is zero and the written one is among them.
pub open spec fn is_version_list(versions: Seq<u32>, written: u32) -> bool {
    &&& 0 < versions.len() <= MAX_READABLE_VERSIONS
    &&& versions.no_duplicates()
    &&& !versions.contains(0)
    &&& versions.contains(written)
}

/// A declaration that other versions of a plugin can rely on.
pub open spec fn is_state_descriptor(descriptor: ContinuationStateDescriptor) -> bool {
    &&& is_token(descriptor.format@, MAX_FORMAT_BYTES as nat)
    &&& descriptor.write_version != 0
    &&& is_version_list(descriptor.readable_versions@, descriptor.write_version)
}

fn holds_version(versions: &Vec<u32>, version: u32) -> (r: bool)
    ensures
        r == versions@.contains(version),
{
    for i in 0..versions.len()
        invariant
            forall|j: int| 0 <= j < i ==> versions@[j] != version,
    {
        if versions[i] == version {
            return true;
        }
    }
    false
}

fn distinct_versions(versions: &Vec<u32>) -> (r: bool)
    ensures
        r == versions@.no_duplicates(),
{
    for i in 0..versions.len()
        invariant
            forall|j: int, k: int| 0 <= j < k < i ==> versions@[j] != versions@[k],
    {
        for j in 0..i
            invariant
                i < versions@.len(),
                forall|k: int| 0 <= k < j ==> versions@[k] != versions@[i as int],
        {
            if versions[j] == versions[i] {
                return false;
            }
        }
    }
    true
}

/// Which conversation states a plugin writes and reads, checked.
pub struct PreparedContinuationState {
    pub format: String,
    pub write_version: u32,
    pub readable_versions: Vec<u32>,
}

/// The state that a checkpoint was written in.
pub struct StateView {
    pub format: Seq<char>,
    pub version: u32,
}

impl PreparedContinuationState {
    pub fn prepare(descriptor: Option<ContinuationStateDescriptor>) -> (result: Result<
        Option<Self>,
        AdminError,
    >)
        ensures
            match descriptor {
                None => result matches Ok(prepared) && prepared is None,
                Some(descriptor) => if is_state_descriptor(descriptor) {
                    result matches Ok(Some(prepared)) && prepared.format@ == descriptor.format@
                        && prepared.write_version == descriptor.write_version
                        && prepared.readable_versions@ == descriptor.readable_versions@
                } else {
                    result matches Err(error) && error == refused(AdminReason::ContinuationState)
                },
            },
    {
        let descriptor = match descriptor {
            Some(descriptor) => descriptor,
            None => return Ok(None),
        };
        let versions = &descriptor.readable_versions;
        if !token(descriptor.format.as_str(), MAX_FORMAT_BYTES) || descriptor.write_version == 0
            || versions.len() == 0 || versions.len() > MAX_READABLE_VERSIONS
            || !distinct_versions(versions) || holds_version(versions, 0) || !holds_version(
            versions,
            descriptor.write_version,
        ) {
            return Err(AdminError::invalid(AdminReason::ContinuationState));
        }
        Ok(
            Some(
                PreparedContinuationState {
                    format: descriptor.format,
                    write_version: descriptor.write_version,
                    readable_versions: descriptor.readable_versions,
                },
            ),
        )
    }

    /// A state that the plugin can read.
    pub open spec fn reads(&self, state: StateView) -> bool {
        self.format@ == state.format && self.readable_versions@.contains(state.version)
    }

    /// The state that the plugin writes.
    pub open spec fn writes(&self) -> StateView {
        StateView { format: self.format@, version: self.write_version }
    }

    /// A plugin reads what it writes.
    pub open spec fn reads_own(&self) -> bool {
        self.reads(self.writes())
    }

    fn accepts(&self, state: &StoredContinuationState) -> (r: bool)
        ensures
            r == self.reads(state@),
    {
        same(self.format.as_str(), state.format.as_str()) && holds_version(
            &self.readable_versions,
            state.version,
        )
    }

    fn copied(&self) -> (copy: Self)
        ensures
            copy.format == self.format,
            copy.write_version == self.write_version,
            copy.readable_versions@ == self.readable_versions@,
    {
        let mut readable_versions: Vec<u32> = Vec::new();
        for i in 0..self.readable_versions.len()
            invariant
                readable_versions@ == self.readable_versions@.take(i as int),
        {
            readable_versions.push(self.readable_versions[i]);
            assert(readable_versions@ =~= self.readable_versions@.take(i + 1));
        }
        assert(self.readable_versions@.take(self.readable_versions@.len() as int)
            =~= self.readable_versions@);
        PreparedContinuationState {
            format: self.format.clone(),
            write_version: self.write_version,
            readable_versions,
        }
    }
}

/// The state that a checkpoint was written in, as it is stored.
pub struct StoredContinuationState {
    pub format: String,
    pub version: u32,
}

impl View for StoredContinuationState {
    type V = StateView;

    open spec fn view(&self) -> StateView {
        StateView { format: self.format@, version: self.version }
    }
}

/// What a checkpoint is bound to.
pub struct BindingView {
    pub provider: Seq<char>,
    pub account_id: Seq<char>,
    pub credential_revision: u64,
    pub authorization: Seq<char>,
    pub continuation_authorization: Seq<char>,
    pub execution_owner: Seq<char>,
    pub continuation_state: Option<StateView>,
}

/// What a checkpoint is bound to, as it is stored.
pub struct StoredSessionBinding {
    pub provider: String,
    pub account_id: String,
    pub credential_revision: u64,
    pub authorization: String,
    pub continuation_authorization: String,
    pub execution_owner: String,
    pub continuation_state: Option<StoredContinuationState>,
}

/// The stored state, where there is one.
pub open spec fn state_of(state: Option<StoredContinuationState>) -> Option<StateView> {
    match state {
        Some(state) => Some(state@),
        None => None,
    }
}

impl View for StoredSessionBinding {
    type V = BindingView;

    open spec fn view(&self) -> BindingView {
        BindingView {
            provider: self.provider@,
            account_id: self.account_id@,
            credential_revision: self.credential_revision,
            authorization: self.authorization@,
            continuation_authorization: self.continuation_authorization@,
            execution_owner: self.execution_owner@,
            continuation_state: state_of(self.continuation_state),
        }
    }
}

/// A checkpoint: what it is bound to, and what the plugin put into it.
pub struct CheckpointView {
    pub binding: BindingView,
    pub payload: Map<Seq<char>, JsonView>,
}

/// A checkpoint: what it is bound to, and what the plugin put into it.
pub struct Checkpoint {
    pub binding: StoredSessionBinding,
    pub payload: Vec<(String, Json)>,
}

impl View for Checkpoint {
    type V = CheckpointView;

    open spec fn view(&self) -> CheckpointView {
        CheckpointView { binding: self.binding@, payload: members_view(self.payload@) }
    }
}

/// The fields of a stored state.
pub open spec fn state_fields() -> Seq<Seq<char>> {
    seq!["format"@, "version"@]
}

/// The fields of a stored binding.
pub open spec fn binding_fields() -> Seq<Seq<char>> {
    seq![
        "provider"@,
        "account_id"@,
        "credential_revision"@,
        "authorization"@,
        "continuation_authorization"@,
        "execution_owner"@,
        "continuation_state"@,
    ]
}

/// The fields of a checkpoint.
pub open spec fn checkpoint_fields() -> Seq<Seq<char>> {
    seq!["binding"@, "payload"@]
}

/// The state that a document describes.
pub open spec fn read_state(document: JsonView) -> Option<StateView> {
    match (text_part(document, "format"@, 0), unsigned_part(document, "version"@, 1)) {
        (Some(format), Some(version)) => if holds_only(document, state_fields()) && version
            <= u32::MAX {
            Some(StateView { format, version: version as u32 })
        } else {
            None
        },
        _ => None,
    }
}

/// A field that may be left out or empty.
pub open spec fn is_absent(part: Option<JsonView>) -> bool {
    part is None || part == Some(JsonView::Null)
}

/// The binding that a document describes.
pub open spec fn read_binding(document: JsonView) -> Option<BindingView> {
    let stored = part_of(document, "continuation_state"@, 6);
    match (
        text_part(document, "provider"@, 0),
        text_part(document, "account_id"@, 1),
        unsigned_part(document, "credential_revision"@, 2),
        text_part(document, "authorization"@, 3),
        text_part(document, "continuation_authorization"@, 4),
        text_part(document, "execution_owner"@, 5),
    ) {
        (
            Some(provider),
            Some(account_id),
            Some(credential_revision),
            Some(authorization),
            Some(continuation_authorization),
            Some(execution_owner),
        ) => if holds_only(document, binding_fields()) && (is_absent(stored) || read_state(
            stored->0,
        ) is Some) {
            Some(
                BindingView {
                    provider,
                    account_id,
                    credential_revision,
                    authorization,
                    continuation_authorization,
                    execution_owner,
                    continuation_state: if is_absent(stored) {
                        None
                    } else {
                        read_state(stored->0)
                    },
                },
            )
        } else {
            None
        },
        _ => None,
    }
}

/// The checkpoint that a document describes.
pub open spec fn read_checkpoint(document: JsonView) -> Option<CheckpointView> {
    match (part_of(document, "binding"@, 0), object_part(document, "payload"@, 1)) {
        (Some(bound), Some(payload)) => if holds_only(document, checkpoint_fields()) && read_binding(
            bound,
        ) is Some {
            Some(CheckpointView { binding: read_binding(bound)->0, payload })
        } else {
            None
        },
        _ => None,
    }
}

fn parse_state(json: &Json) -> (state: Option<StoredContinuationState>)
    ensures
        state_of(state) == read_state(json@),
{
    let names: Vec<&'static str> = vec!["format", "version"];
    assert(field_names(names@) =~= state_fields());
    if !only_fields(json, &names) {
        return None;
    }
    let format = text_field(json, "format", 0)?;
    let version = unsigned_field(json, "version", 1)?;
    if version > u32::MAX as u64 {
        return None;
    }
    Some(StoredContinuationState { format: format.clone(), version: version as u32 })
}

fn parse_binding(json: &Json) -> (binding: Option<StoredSessionBinding>)
    ensures
        binding is Some == read_binding(json@) is Some,
        binding matches Some(b) ==> read_binding(json@) == Some(b@),
{
    let names: Vec<&'static str> =
        vec![
        "provider",
        "account_id",
        "credential_revision",
        "authorization",
        "continuation_authorization",
        "execution_owner",
        "continuation_state",
    ];
    assert(field_names(names@) =~= binding_fields());
    if !only_fields(json, &names) {
        return None;
    }
    let provider = text_field(json, "provider", 0)?;
    let account_id = text_field(json, "account_id", 1)?;
    let credential_revision = unsigned_field(json, "credential_revision", 2)?;
    let authorization = text_field(json, "authorization", 3)?;
    let continuation_authorization = text_field(json, "continuation_authorization", 4)?;
    let execution_owner = text_field(json, "execution_owner", 5)?;
    let continuation_state = match part(json, "continuation_state", 6) {
        None => None,
        Some(Json::Null) => None,
        Some(stored) => match parse_state(stored) {
            Some(state) => Some(state),
            None => return None,
        },
    };
    Some(
        StoredSessionBinding {
            provider: provider.clone(),
            account_id: account_id.clone(),
            credential_revision,
            authorization: authorization.clone(),
            continuation_authorization: continuation_authorization.clone(),
            execution_owner: execution_owner.clone(),
            continuation_state,
        },
    )
}

fn parse_checkpoint(json: &Json) -> (checkpoint: Option<Checkpoint>)
    ensures
        checkpoint is Some == read_checkpoint(json@) is Some,
        checkpoint matches Some(c) ==> read_checkpoint(json@) == Some(c@),
{
    let names: Vec<&'static str> = vec!["binding", "payload"];
    assert(field_names(names@) =~= checkpoint_fields());
    if !only_fields(json, &names) {
        return None;
    }
    let bound = part(json, "binding", 0)?;
    let binding = parse_binding(bound)?;
    let payload = object_field(json, "payload", 1)?;
    Some(Checkpoint { binding, payload: copy_members(payload) })
}


/// The document of a stored state.
pub open spec fn state_document(state: StateView) -> JsonView {
    JsonView::Object(
        Map::empty().insert("format"@, JsonView::Text(state.format)).insert(
            "version"@,
            JsonView::Number(NumberView::Unsigned(state.version as u64)),
        ),
    )
}

/// The members of a stored binding that are always there.
pub open spec fn binding_members(binding: BindingView) -> Map<Seq<char>, JsonView> {
    Map::empty().insert("provider"@, JsonView::Text(binding.provider)).insert(
        "account_id"@,
        JsonView::Text(binding.account_id),
    ).insert(
        "credential_revision"@,
        JsonView::Number(NumberView::Unsigned(binding.credential_revision)),
    ).insert("authorization"@, JsonView::Text(binding.authorization)).insert(
        "continuation_authorization"@,
        JsonView::Text(binding.continuation_authorization),
    ).insert("execution_owner"@, JsonView::Text(binding.execution_owner))
}

/// The document of a stored binding.
pub open spec fn binding_document(binding: BindingView) -> JsonView {
    JsonView::Object(
        match binding.continuation_state {
            Some(state) => binding_members(binding).insert(
                "continuation_state"@,
                state_document(state),
            ),
            None => binding_members(binding),
        },
    )
}

/// The members of a checkpoint's document.
pub open spec fn checkpoint_members(checkpoint: CheckpointView) -> Map<Seq<char>, JsonView> {
    Map::empty().insert("binding"@, binding_document(checkpoint.binding)).insert(
        "payload"@,
        JsonView::Object(checkpoint.payload),
    )
}

/// The document of a checkpoint.
pub open spec fn checkpoint_document(checkpoint: CheckpointView) -> JsonView {
    JsonView::Object(checkpoint_members(checkpoint))
}

fn write_state(state: &StoredContinuationState) -> (json: Json)
    ensures
        json@ == state_document(state@),
{
    let mut members: Vec<(String, Json)> = Vec::new();
    put(&mut members, "format", Json::text(state.format.as_str()));
    put(&mut members, "version", Json::unsigned(state.version as u64));
    Json::Object(members)
}

fn write_binding(binding: &StoredSessionBinding) -> (json: Json)
    ensures
        json@ == binding_document(binding@),
{
    let mut members: Vec<(String, Json)> = Vec::new();
    put(&mut members, "provider", Json::text(binding.provider.as_str()));
    put(&mut members, "account_id", Json::text(binding.account_id.as_str()));
    put(&mut members, "credential_revision", Json::unsigned(binding.credential_revision));
    put(&mut members, "authorization", Json::text(binding.authorization.as_str()));
    put(
        &mut members,
        "continuation_authorization",
        Json::text(binding.continuation_authorization.as_str()),
    );
    put(&mut members, "execution_owner", Json::text(binding.execution_owner.as_str()));
    match &binding.continuation_state {
        Some(state) => put(&mut members, "continuation_state", write_state(state)),
        None => {},
    }
    Json::Object(members)
}

fn write_checkpoint(checkpoint: Checkpoint) -> (members: Vec<(String, Json)>)
    ensures
        members_view(members@) == checkpoint_members(checkpoint@),
{
    let mut members: Vec<(String, Json)> = Vec::new();
    put(&mut members, "binding", write_binding(&checkpoint.binding));
    put(&mut members, "payload", Json::Object(checkpoint.payload));
    members
}

/// The document of a stored state describes that state.
proof fn lemma_state_document(state: StateView)
    ensures
        read_state(state_document(state)) == Some(state),
{
    reveal_strlit("format");
    reveal_strlit("version");
    assert("format"@.len() != "version"@.len());
    let fields = state_fields();
    assert(fields[0] == "format"@ && fields[1] == "version"@);
}

/// The document of a stored binding describes that binding.
proof fn lemma_binding_document(binding: BindingView)
    ensures
        read_binding(binding_document(binding)) == Some(binding),
{
    reveal_strlit("provider");
    reveal_strlit("account_id");
    reveal_strlit("credential_revision");
    reveal_strlit("authorization");
    reveal_strlit("continuation_authorization");
    reveal_strlit("execution_owner");
    reveal_strlit("continuation_state");
    assert("provider"@.len() == 8);
    assert("account_id"@.len() == 10);
    assert("credential_revision"@.len() == 19);
    assert("authorization"@.len() == 13);
    assert("continuation_authorization"@.len() == 26);
    assert("execution_owner"@.len() == 15);
    assert("continuation_state"@.len() == 18);
    let fields = binding_fields();
    assert(fields[0] == "provider"@ && fields[1] == "account_id"@ && fields[2]
        == "credential_revision"@ && fields[3] == "authorization"@ && fields[4]
        == "continuation_authorization"@ && fields[5] == "execution_owner"@ && fields[6]
        == "continuation_state"@);
    match binding.continuation_state {
        Some(state) => lemma_state_document(state),
        None => {},
    }
}

/// The document of a checkpoint describes that checkpoint.
pub proof fn checkpoint_round_trip(checkpoint: CheckpointView)
    ensures
        read_checkpoint(checkpoint_document(checkpoint)) == Some(checkpoint),
{
    reveal_strlit("binding");
    reveal_strlit("payload");
    assert("binding"@[0] != "payload"@[0]);
    let fields = checkpoint_fields();
    assert(fields[0] == "binding"@ && fields[1] == "payload"@);
    lemma_binding_document(checkpoint.binding);
}

/// What the engine keeps of a conversation for a provider.
pub struct ProviderSessionState {
    pub provider: String,
    pub payload: Vec<(String, Json)>,
}

impl ProviderSessionState {
    /// The document that is kept.
    pub open spec fn document(&self) -> JsonView {
        JsonView::Object(members_view(self.payload@))
    }
}

/// Who a provider is to the conversations that it carries on.
pub struct ContinuationIdentity {
    pub provider: String,
    pub authorization: String,
    pub continuation_authorization: String,
    pub continuation_state: Option<PreparedContinuationState>,
    pub owner: String,
}

/// Who reads a checkpoint.
pub enum InterpreterTarget {
    /// The provider that was asked; the checkpoint was written by another process of it.
    Current { previous_owner: Option<String> },
    /// The process that wrote the checkpoint.
    Retired { owner: String },
}

/// Why a conversation cannot be carried on: the client has to start over.
pub open spec fn checkpoint_refused() -> ProviderError {
    ProviderError {
        continuation_failure: Some(ContinuationFailure::HistoryUnavailable),
        continuation_recovery: Some(ContinuationRecoveryDisposition::ClientReplayRequired),
        ..bare_error(ProviderErrorKind::InvalidRequest, UpstreamSendState::NotSent)
    }
}

pub fn invalid_checkpoint() -> (error: ProviderError)
    ensures
        error == checkpoint_refused(),
{
    let mut error = ProviderError::new(
        ProviderErrorKind::InvalidRequest,
        UpstreamSendState::NotSent,
    );
    error.continuation_failure = Some(ContinuationFailure::HistoryUnavailable);
    error.continuation_recovery = Some(ContinuationRecoveryDisposition::ClientReplayRequired);
    error
}

impl ContinuationIdentity {
    pub fn prepare(
        provider: String,
        authorization: String,
        continuation_authorization: String,
        descriptor: Option<ContinuationStateDescriptor>,
        owner: String,
    ) -> (result: Result<Self, AdminError>)
        ensures
            match result {
                Ok(identity) => {
                    &&& descriptor matches Some(d) ==> is_state_descriptor(d)
                    &&& identity.provider == provider
                    &&& identity.authorization == authorization
                    &&& identity.continuation_authorization == continuation_authorization
                    &&& identity.owner == owner
                    &&& identity.continuation_state is Some == descriptor is Some
                    &&& descriptor matches Some(d) ==> {
                        let state = identity.continuation_state->0;
                        state.format@ == d.format@ && state.write_version == d.write_version
                            && state.readable_versions@ == d.readable_versions@
                    }
                },
                Err(error) => {
                    &&& descriptor matches Some(d) && !is_state_descriptor(d)
                    &&& error == refused(AdminReason::ContinuationState)
                },
            },
    {
        let continuation_state = match PreparedContinuationState::prepare(descriptor) {
            Ok(state) => state,
            Err(error) => return Err(error),
        };
        Ok(
            ContinuationIdentity {
                provider,
                authorization,
                continuation_authorization,
                continuation_state,
                owner,
            },
        )
    }

    /// A checkpoint is written in a state that this provider reads.
    pub open spec fn interprets(&self, binding: BindingView) -> bool {
        match (self.continuation_state, binding.continuation_state) {
            (None, None) => self.authorization@ == binding.authorization,
            (Some(current), Some(stored)) => current.reads(stored),
            _ => false,
        }
    }

    /// A kept state holds a checkpoint of this provider, under its authority, made by some process.
    pub open spec fn owns(&self, state: ProviderSessionState, checkpoint: CheckpointView) -> bool {
        &&& state.provider@ == self.provider@
        &&& checkpoint.binding.provider == self.provider@
        &&& checkpoint.binding.continuation_authorization == self.continuation_authorization@
        &&& is_uuid(checkpoint.binding.execution_owner)
        &&& fits(state.document(), MAX_PAYLOAD_BYTES as nat)
    }

    fn can_interpret(&self, stored: &StoredSessionBinding) -> (r: bool)
        ensures
            r == self.interprets(stored@),
    {
        match (&self.continuation_state, &stored.continuation_state) {
            (None, None) => same(self.authorization.as_str(), stored.authorization.as_str()),
            (Some(current), Some(state)) => current.accepts(state),
            _ => false,
        }
    }

    /// The checkpoint that a kept state holds, where it is one of this provider.
    fn own_checkpoint(&self, state: &ProviderSessionState) -> (checkpoint: Option<Checkpoint>)
        ensures
            match read_checkpoint(state.document()) {
                Some(read) => if self.owns(*state, read) {
                    checkpoint matches Some(c) && c@ == read
                } else {
                    checkpoint is None
                },
                None => checkpoint is None,
            },
    {
        let document = Json::Object(copy_members(&state.payload));
        let checkpoint = parse_checkpoint(&document)?;
        if !same(state.provider.as_str(), self.provider.as_str()) || !same(
            checkpoint.binding.provider.as_str(),
            self.provider.as_str(),
        ) || !same(
            checkpoint.binding.continuation_authorization.as_str(),
            self.continuation_authorization.as_str(),
        ) || !holds_uuid(checkpoint.binding.execution_owner.as_str()) || !within(
            &document,
            MAX_PAYLOAD_BYTES,
        ) {
            return None;
        }
        Some(checkpoint)
    }

    /// Who reads the checkpoint that is kept of a conversation.
    pub fn interpreter_target(&self, state: Option<&ProviderSessionState>) -> (result: Result<
        InterpreterTarget,
        ProviderError,
    >)
        ensures
            match state {
                None => result matches Ok(InterpreterTarget::Current { previous_owner })
                    && previous_owner is None,
                Some(state) => match read_checkpoint(state.document()) {
                    Some(checkpoint) if self.owns(*state, checkpoint) => {
                        let owner = checkpoint.binding.execution_owner;
                        if self.interprets(checkpoint.binding) {
                            result matches Ok(InterpreterTarget::Current { previous_owner }) && (
                            if owner == self.owner@ {
                                previous_owner is None
                            } else {
                                previous_owner matches Some(previous) && previous@ == owner
                            })
                        } else if owner == self.owner@ {
                            result matches Err(error) && error == checkpoint_refused()
                        } else {
                            result matches Ok(InterpreterTarget::Retired { owner: found })
                                && found@ == owner
                        }
                    },
                    _ => result matches Err(error) && error == checkpoint_refused(),
                },
            },
    {
        let state = match state {
            Some(state) => state,
            None => return Ok(InterpreterTarget::Current { previous_owner: None }),
        };
        let checkpoint = match self.own_checkpoint(state) {
            Some(checkpoint) => checkpoint,
            None => return Err(invalid_checkpoint()),
        };
        let own = same(checkpoint.binding.execution_owner.as_str(), self.owner.as_str());
        if self.can_interpret(&checkpoint.binding) {
            return Ok(
                InterpreterTarget::Current {
                    previous_owner: if own {
                        None
                    } else {
                        Some(checkpoint.binding.execution_owner)
                    },
                },
            );
        }
        if own {
            return Err(invalid_checkpoint());
        }
        Ok(InterpreterTarget::Retired { owner: checkpoint.binding.execution_owner })
    }

    /// Two providers act under the same authority.
    pub open spec fn shares_authority(&self, other: &Self) -> bool {
        self.provider@ == other.provider@ && self.continuation_authorization@
            == other.continuation_authorization@
    }

    pub fn matches_authority(&self, other: &Self) -> (r: bool)
        ensures
            r == self.shares_authority(other),
    {
        same(self.provider.as_str(), other.provider.as_str()) && same(
            self.continuation_authorization.as_str(),
            other.continuation_authorization.as_str(),
        )
    }

    /// The same provider.
    pub open spec fn is_copy(&self, other: &Self) -> bool {
        &&& self.provider == other.provider
        &&& self.authorization == other.authorization
        &&& self.continuation_authorization == other.continuation_authorization
        &&& self.owner == other.owner
        &&& self.continuation_state is Some == other.continuation_state is Some
        &&& self.continuation_state matches Some(a) ==> {
            let b = other.continuation_state->0;
            a.format == b.format && a.write_version == b.write_version && a.readable_versions@
                == b.readable_versions@
        }
    }

    fn copied(&self) -> (copy: Self)
        ensures
            copy.is_copy(self),
    {
        ContinuationIdentity {
            provider: self.provider.clone(),
            authorization: self.authorization.clone(),
            continuation_authorization: self.continuation_authorization.clone(),
            continuation_state: match &self.continuation_state {
                Some(state) => Some(state.copied()),
                None => None,
            },
            owner: self.owner.clone(),
        }
    }

    pub fn bind_account(&self, account_id: String, credential_revision: u64) -> (binding:
        SessionBinding)
        ensures
            binding.identity.is_copy(self),
            binding.account_id == account_id,
            binding.credential_revision == credential_revision,
            !binding.issued,
    {
        SessionBinding { identity: self.copied(), account_id, credential_revision, issued: false }
    }
}

/// The account that a conversation is carried on with.
pub struct SessionBinding {
    pub identity: ContinuationIdentity,
    pub account_id: String,
    pub credential_revision: u64,
    /// A checkpoint was handed out.
    pub issued: bool,
}

impl SessionBinding {
    /// What a checkpoint of this account is bound to.
    pub open spec fn bound(&self) -> BindingView {
        BindingView {
            provider: self.identity.provider@,
            account_id: self.account_id@,
            credential_revision: self.credential_revision,
            authorization: self.identity.authorization@,
            continuation_authorization: self.identity.continuation_authorization@,
            execution_owner: self.identity.owner@,
            continuation_state: match self.identity.continuation_state {
                Some(state) => Some(state.writes()),
                None => None,
            },
        }
    }

    /// A kept state holds a checkpoint of this account that this provider reads.
    pub open spec fn restores(
        &self,
        state: ProviderSessionState,
        checkpoint: CheckpointView,
    ) -> bool {
        &&& self.identity.owns(state, checkpoint)
        &&& checkpoint.binding.account_id == self.account_id@
        &&& checkpoint.binding.credential_revision == self.credential_revision
        &&& self.identity.interprets(checkpoint.binding)
    }

    fn stored(&self) -> (binding: StoredSessionBinding)
        ensures
            binding@ == self.bound(),
    {
        StoredSessionBinding {
            provider: self.identity.provider.clone(),
            account_id: self.account_id.clone(),
            credential_revision: self.credential_revision,
            authorization: self.identity.authorization.clone(),
            continuation_authorization: self.identity.continuation_authorization.clone(),
            execution_owner: self.identity.owner.clone(),
            continuation_state: match &self.identity.continuation_state {
                Some(state) => Some(
                    StoredContinuationState {
                        format: state.format.clone(),
                        version: state.write_version,
                    },
                ),
                None => None,
            },
        }
    }

    /// What a plugin put into the checkpoint that is kept of a conversation.
    pub fn restore(&self, state: Option<&ProviderSessionState>) -> (result: Result<
        Option<Vec<(String, Json)>>,
        ProviderError,
    >)
        ensures
            self.is_restored(state, result),
    {
        let state = match state {
            Some(state) => state,
            None => return Ok(None),
        };
        let checkpoint = match self.identity.own_checkpoint(state) {
            Some(checkpoint) => checkpoint,
            None => return Err(invalid_checkpoint()),
        };
        if !same(self.account_id.as_str(), checkpoint.binding.account_id.as_str())
            || self.credential_revision != checkpoint.binding.credential_revision
            || !self.identity.can_interpret(&checkpoint.binding) {
            return Err(invalid_checkpoint());
        }
        Ok(Some(checkpoint.payload))
    }

    /// Keeps what a plugin puts into a checkpoint.
    pub fn capture(&mut self, payload: Vec<(String, Json)>) -> (result: Result<
        ProviderSessionState,
        ProviderError,
    >)
        ensures
            final(self).captures(old(self), members_view(payload@), result),
    {
        let checkpoint = Checkpoint { binding: self.stored(), payload };
        let document = Json::Object(write_checkpoint(checkpoint));
        if !within(&document, MAX_PAYLOAD_BYTES) {
            return Err(stream_protocol_error());
        }
        match document {
            Json::Object(payload) => {
                self.issued = true;
                Ok(ProviderSessionState { provider: self.identity.provider.clone(), payload })
            },
            _ => Err(stream_protocol_error()),
        }
    }
}

/// What was captured for an account is restored for it: whatever state the capture of a payload
/// returned, restoring it for the same account gives that payload back.
pub proof fn captured_is_restored(
    binding: SessionBinding,
    state: ProviderSessionState,
    payload: Map<Seq<char>, JsonView>,
)
    requires
        is_uuid(binding.identity.owner@),
        binding.identity.continuation_state matches Some(s) ==> s.reads_own(),
        fits(
            checkpoint_document(CheckpointView { binding: binding.bound(), payload }),
            MAX_PAYLOAD_BYTES as nat,
        ),
        state.provider == binding.identity.provider,
        state.document() == checkpoint_document(
            CheckpointView { binding: binding.bound(), payload },
        ),
    ensures
        read_checkpoint(state.document()) matches Some(checkpoint) && binding.restores(
            state,
            checkpoint,
        ) && checkpoint.payload == payload,
{
    checkpoint_round_trip(CheckpointView { binding: binding.bound(), payload });
}

/// A checkpoint of one account is never restored for another account, for another revision of its
/// credential, or under another authority.
pub proof fn restored_only_where_bound(
    binding: SessionBinding,
    state: ProviderSessionState,
    checkpoint: CheckpointView,
)
    requires
        read_checkpoint(state.document()) == Some(checkpoint),
        binding.restores(state, checkpoint),
    ensures
        checkpoint.binding.provider == binding.identity.provider@,
        checkpoint.binding.account_id == binding.account_id@,
        checkpoint.binding.credential_revision == binding.credential_revision,
        checkpoint.binding.continuation_authorization
            == binding.identity.continuation_authorization@,
        checkpoint.binding.continuation_state is None ==> checkpoint.binding.authorization
            == binding.identity.authorization@,
{
}

/// A provider whose declaration was accepted reads the states that it writes.
pub proof fn declared_state_is_readable(
    descriptor: ContinuationStateDescriptor,
    prepared: PreparedContinuationState,
)
    requires
        is_state_descriptor(descriptor),
        prepared.format@ == descriptor.format@,
        prepared.write_version == descriptor.write_version,
        prepared.readable_versions@ == descriptor.readable_versions@,
    ensures
        prepared.reads_own(),
{
}

/// A plugin may declare its states exactly if their format is a token of at most 64 bytes, it reads 1
/// to 32 versions, all different and none of them zero, and it reads the version that it writes.
pub proof fn states_in_order(descriptor: ContinuationStateDescriptor)
    ensures
        is_state_descriptor(descriptor) <==> {
            &&& is_token(descriptor.format@, 64)
            &&& 1 <= descriptor.readable_versions@.len() <= 32
            &&& forall|i: int|
                0 <= i < descriptor.readable_versions@.len()
                    ==> #[trigger] descriptor.readable_versions@[i] > 0
            &&& forall|i: int, j: int|
                0 <= i < j < descriptor.readable_versions@.len()
                    ==> descriptor.readable_versions@[i] != descriptor.readable_versions@[j]
            &&& descriptor.readable_versions@.contains(descriptor.write_version)
        },
{
    let versions = descriptor.readable_versions@;
    if is_state_descriptor(descriptor) {
        assert forall|i: int| 0 <= i < versions.len() implies #[trigger] versions[i] > 0 by {
            assert(versions.contains(versions[i]));
        }
    }
}

/// A provider reads a checkpoint exactly if neither declares a state and both are of one
/// authorization, or both declare one and the provider reads that format in that version.
pub proof fn interpreted_checkpoints(identity: ContinuationIdentity, binding: BindingView)
    ensures
        identity.interprets(binding) <==> {
            ||| identity.continuation_state is None && binding.continuation_state is None
                && identity.authorization@ == binding.authorization
            ||| identity.continuation_state is Some && binding.continuation_state is Some
                && identity.continuation_state->0.format@ == binding.continuation_state->0.format
                && identity.continuation_state->0.readable_versions@.contains(
                binding.continuation_state->0.version,
            )
        },
{
}

/// A kept state is a provider's own exactly if it was kept for it, is bound to it and to its standing
/// authorization, was made by some process, and has at most 65536 bytes.
pub proof fn owned_checkpoints(
    identity: ContinuationIdentity,
    state: ProviderSessionState,
    checkpoint: CheckpointView,
)
    ensures
        identity.owns(state, checkpoint) <==> state.provider@ == identity.provider@
            && checkpoint.binding.provider == identity.provider@
            && checkpoint.binding.continuation_authorization == identity.continuation_authorization@
            && is_uuid(checkpoint.binding.execution_owner) && fits(state.document(), 65536),
{
}

/// A checkpoint is bound to the account and the revision that it was made with, to the authority of
/// its provider, to the process that made it, and to the state that the provider writes.
pub proof fn bound_as_made(binding: SessionBinding)
    ensures
        binding.bound().provider == binding.identity.provider@,
        binding.bound().account_id == binding.account_id@,
        binding.bound().credential_revision == binding.credential_revision,
        binding.bound().authorization == binding.identity.authorization@,
        binding.bound().continuation_authorization == binding.identity.continuation_authorization@,
        binding.bound().execution_owner == binding.identity.owner@,
        binding.bound().continuation_state is Some <==> binding.identity.continuation_state is Some,
        binding.identity.continuation_state is Some ==> binding.bound().continuation_state->0.format
            == binding.identity.continuation_state->0.format@
            && binding.bound().continuation_state->0.version
            == binding.identity.continuation_state->0.write_version,
{
}

/// A checkpoint is restored exactly for the account and the revision that it is bound to, by a
/// provider whose own it is and that reads it.
pub proof fn restored_exactly_where_bound(
    binding: SessionBinding,
    state: ProviderSessionState,
    checkpoint: CheckpointView,
)
    ensures
        binding.restores(state, checkpoint) <==> binding.identity.owns(state, checkpoint)
            && binding.identity.interprets(checkpoint.binding) && checkpoint.binding.account_id
            == binding.account_id@ && checkpoint.binding.credential_revision
            == binding.credential_revision,
{
}

/// The document of a checkpoint holds what the plugin put into it and what it is bound to, each part
/// under its own name.
pub proof fn checkpoint_document_says(checkpoint: CheckpointView)
    ensures
        checkpoint_document(checkpoint) matches JsonView::Object(whole) && whole.dom() == set![
            "binding"@,
            "payload"@,
        ] && whole["payload"@] == JsonView::Object(checkpoint.payload) && (whole["binding"@]
            matches JsonView::Object(bound) && bound["provider"@] == JsonView::Text(
            checkpoint.binding.provider,
        ) && bound["account_id"@] == JsonView::Text(checkpoint.binding.account_id)
            && bound["credential_revision"@] == JsonView::Number(
            NumberView::Unsigned(checkpoint.binding.credential_revision),
        ) && bound["authorization"@] == JsonView::Text(checkpoint.binding.authorization)
            && bound["continuation_authorization"@] == JsonView::Text(
            checkpoint.binding.continuation_authorization,
        ) && bound["execution_owner"@] == JsonView::Text(checkpoint.binding.execution_owner) && (
        bound.contains_key("continuation_state"@)
            <==> checkpoint.binding.continuation_state is Some) && (
        checkpoint.binding.continuation_state is Some ==> (bound["continuation_state"@]
            matches JsonView::Object(state) && state.dom() == set!["format"@, "version"@]
            && state["format"@] == JsonView::Text(checkpoint.binding.continuation_state->0.format)
            && state["version"@] == JsonView::Number(
            NumberView::Unsigned(checkpoint.binding.continuation_state->0.version as u64),
        )))),
{
    reveal_strlit("provider");
    reveal_strlit("account_id");
    reveal_strlit("credential_revision");
    reveal_strlit("authorization");
    reveal_strlit("continuation_authorization");
    reveal_strlit("execution_owner");
    reveal_strlit("continuation_state");
    reveal_strlit("format");
    reveal_strlit("version");
    reveal_strlit("binding");
    reveal_strlit("payload");
    assert("provider"@.len() == 8);
    assert("account_id"@.len() == 10);
    assert("credential_revision"@.len() == 19);
    assert("authorization"@.len() == 13);
    assert("continuation_authorization"@.len() == 26);
    assert("execution_owner"@.len() == 15);
    assert("continuation_state"@.len() == 18);
    assert("format"@.len() == 6);
    assert("version"@.len() == 7);
    assert("binding"@.len() == 7);
    assert("payload"@.len() == 7);
    assert("binding"@[0] != "payload"@[0]);
    let whole = checkpoint_members(checkpoint);
    assert(whole.dom() =~= set!["binding"@, "payload"@]);
    if checkpoint.binding.continuation_state is Some {
        let state = state_document(checkpoint.binding.continuation_state->0)->Object_0;
        assert(state.dom() =~= set!["format"@, "version"@]);
    }
}

/// A client whose checkpoint is refused is told that its request is invalid because the history is
/// gone, that it has to send it again, and that nothing was sent.
pub proof fn refused_checkpoints()
    ensures
        checkpoint_refused().kind is InvalidRequest,
        checkpoint_refused().send_state is NotSent,
        checkpoint_refused().continuation_failure == Some(ContinuationFailure::HistoryUnavailable),
        checkpoint_refused().continuation_recovery == Some(
            ContinuationRecoveryDisposition::ClientReplayRequired,
        ),
        checkpoint_refused().status is None && checkpoint_refused().client_response is None
            && checkpoint_refused().client_event is None,
{
}

/// Two providers act under one authority exactly if they are of one kind and hold one standing
/// authorization; a copy of a provider acts under its authority and reads what it reads.
pub proof fn shared_authority(a: ContinuationIdentity, b: ContinuationIdentity, binding: BindingView)
    ensures
        a.shares_authority(&b) <==> a.provider@ == b.provider@ && a.continuation_authorization@
            == b.continuation_authorization@,
        a.is_copy(&b) ==> a.shares_authority(&b) && a.interprets(binding) == b.interprets(binding)
            && a.owner == b.owner && a.authorization == b.authorization,
{
}

/// What is read as a checkpoint says just that: it is an object with nothing but what it is bound to
/// and its payload, and all that binds it is there.
pub proof fn checkpoints_are_read_strictly(members: Map<Seq<char>, JsonView>, name: Seq<char>)
    requires
        read_checkpoint(JsonView::Object(members)) is Some,
    ensures
        members.contains_key(name) ==> name == "binding"@ || name == "payload"@,
        members.contains_key("binding"@) && members.contains_key("payload"@),
        ({
            let read = read_checkpoint(JsonView::Object(members))->0;
            &&& members["payload"@] == JsonView::Object(read.payload)
            &&& members["binding"@] matches JsonView::Object(bound) ==> {
                &&& bound["provider"@] == JsonView::Text(read.binding.provider)
                &&& bound["account_id"@] == JsonView::Text(read.binding.account_id)
                &&& bound["credential_revision"@] == JsonView::Number(
                    NumberView::Unsigned(read.binding.credential_revision),
                )
                &&& bound["authorization"@] == JsonView::Text(read.binding.authorization)
                &&& bound["continuation_authorization"@] == JsonView::Text(
                    read.binding.continuation_authorization,
                )
                &&& bound["execution_owner"@] == JsonView::Text(read.binding.execution_owner)
                &&& bound.contains_key(name) ==> name == "provider"@ || name == "account_id"@ || name
                    == "credential_revision"@ || name == "authorization"@ || name
                    == "continuation_authorization"@ || name == "execution_owner"@ || name
                    == "continuation_state"@
                &&& read.binding.continuation_state is Some <==> bound.contains_key(
                    "continuation_state"@,
                ) && bound["continuation_state"@] != JsonView::Null
            }
        }),
{
    let document = JsonView::Object(members);
    let names = checkpoint_fields();
    if members.contains_key(name) {
        assert(document->Object_0.contains_key(name));
        assert(names.contains(name));
        let k = choose|k: int| 0 <= k < names.len() && names[k] == name;
        assert(k == 0 || k == 1);
    }
    if let JsonView::Object(bound) = members["binding"@] {
        let inner = JsonView::Object(bound);
        let fields = binding_fields();
        assert(read_binding(inner) is Some);
        if bound.contains_key(name) {
            assert(inner->Object_0.contains_key(name));
            assert(fields.contains(name));
            let k = choose|k: int| 0 <= k < fields.len() && fields[k] == name;
            assert(k == 0 || k == 1 || k == 2 || k == 3 || k == 4 || k == 5 || k == 6);
        }
    }
}

impl SessionBinding {
    /// What is read back of a checkpoint for this binding.
    pub open spec fn is_restored(
        &self,
        state: Option<&ProviderSessionState>,
        result: Result<Option<Vec<(String, Json)>>, ProviderError>,
    ) -> bool {
        match state {
            None => result matches Ok(payload) && payload is None,
            Some(state) => match read_checkpoint(state.document()) {
                Some(checkpoint) if self.restores(*state, checkpoint) => result matches Ok(
                    Some(payload),
                ) && members_view(payload@) == checkpoint.payload,
                _ => result matches Err(error) && error == checkpoint_refused(),
            },
        }
    }

    /// What handing out a checkpoint does.
    pub open spec fn captures(
        &self,
        before: &Self,
        payload: Map<Seq<char>, JsonView>,
        result: Result<ProviderSessionState, ProviderError>,
    ) -> bool {
        let checkpoint = CheckpointView { binding: before.bound(), payload };
        &&& self.identity == before.identity
        &&& self.account_id == before.account_id
        &&& self.credential_revision == before.credential_revision
        &&& self.issued == (before.issued || result is Ok)
        &&& if fits(checkpoint_document(checkpoint), MAX_PAYLOAD_BYTES as nat) {
            result matches Ok(state) && state.provider == before.identity.provider
                && state.document() == checkpoint_document(checkpoint)
        } else {
            result matches Err(error) && error == bare_error(
                ProviderErrorKind::Protocol,
                UpstreamSendState::Ambiguous,
            )
        }
    }
}

/// What is handed out as a checkpoint is read back by the same binding, with the payload that was put
/// into it, unless it is too large; then it is not handed out.
pub proof fn handed_out_is_read_back(
    before: SessionBinding,
    after: SessionBinding,
    payload: Map<Seq<char>, JsonView>,
    result: Result<ProviderSessionState, ProviderError>,
    read: Result<Option<Vec<(String, Json)>>, ProviderError>,
)
    requires
        is_uuid(before.identity.owner@),
        before.identity.continuation_state matches Some(s) ==> s.reads_own(),
        after.captures(&before, payload, result),
        result matches Ok(state) ==> after.is_restored(Some(&state), read),
    ensures
        result is Ok <==> fits(
            checkpoint_document(CheckpointView { binding: before.bound(), payload }),
            65536,
        ),
        result is Ok ==> (read matches Ok(Some(found)) && members_view(found@) == payload),
        result is Ok ==> after.issued,
        result is Err ==> after.issued == before.issued,
        result matches Err(error) ==> error.kind is Protocol,
{
    if let Ok(state) = result {
        captured_is_restored(before, state, payload);
        assert(after.bound() == before.bound());
    }
}

/// Without a checkpoint a conversation begins anew; with one that is not this binding's it is refused,
/// and the client has to send the conversation again.
pub proof fn foreign_checkpoints_are_refused(
    binding: SessionBinding,
    state: ProviderSessionState,
    checkpoint: CheckpointView,
    read: Result<Option<Vec<(String, Json)>>, ProviderError>,
    fresh: Result<Option<Vec<(String, Json)>>, ProviderError>,
)
    requires
        binding.is_restored(Some(&state), read),
        binding.is_restored(None, fresh),
        read_checkpoint(state.document()) == Some(checkpoint),
    ensures
        fresh matches Ok(nothing) && nothing is None,
        checkpoint.binding.account_id != binding.account_id@ || checkpoint.binding.credential_revision
            != binding.credential_revision || checkpoint.binding.provider
            != binding.identity.provider@ || checkpoint.binding.continuation_authorization
            != binding.identity.continuation_authorization@ ==> (read matches Err(error)
            && error.continuation_recovery == Some(
            ContinuationRecoveryDisposition::ClientReplayRequired,
        )),
        read is Ok ==> (read matches Ok(Some(payload)) && members_view(payload@)
            == checkpoint.payload),
{
    if binding.restores(state, checkpoint) {
        restored_only_where_bound(binding, state, checkpoint);
    }
    refused_checkpoints();
}

} // verus!
