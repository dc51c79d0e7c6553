use gateway_plugin::continuation::{
    ContinuationIdentity, ContinuationStateDescriptor, InterpreterTarget, ProviderSessionState,
};
use gateway_plugin::fault::{
    AdminReason, ContinuationFailure, ContinuationRecoveryDisposition, ProviderErrorKind,
    UpstreamSendState,
};
use gateway_plugin::json::{json_eq, Json};

const OLD: &str = "11111111-1111-4111-8111-111111111111";
const NEW: &str = "22222222-2222-4222-8222-222222222222";

fn state(written: u32, readable: &[u32]) -> Option<ContinuationStateDescriptor> {
    Some(ContinuationStateDescriptor {
        format: "turns".to_owned(),
        write_version: written,
        readable_versions: readable.to_vec(),
    })
}

fn identity(
    owner: &str,
    authorization: &str,
    descriptor: Option<ContinuationStateDescriptor>,
) -> ContinuationIdentity {
    ContinuationIdentity::prepare(
        "custom".to_owned(),
        authorization.to_owned(),
        "conversations".to_owned(),
        descriptor,
        owner.to_owned(),
    )
    .ok()
    .expect("a provider")
}

fn payload() -> Vec<(String, Json)> {
    vec![("turn".to_owned(), Json::unsigned(3))]
}

fn checkpoint(writer: &ContinuationIdentity) -> ProviderSessionState {
    let mut binding = writer.bind_account("acct".to_owned(), 5);
    binding.capture(payload()).ok().expect("a checkpoint")
}

#[test]
fn a_checkpoint_is_read_back() {
    let writer = identity(OLD, "grant", state(2, &[1, 2]));
    let mut binding = writer.bind_account("acct".to_owned(), 5);
    assert!(!binding.issued);
    let kept = binding.capture(payload()).ok().expect("a checkpoint");
    assert!(binding.issued);
    assert_eq!(kept.provider, "custom");
    let restored = binding.restore(Some(&kept)).ok().flatten().expect("a payload");
    assert!(json_eq(&Json::Object(restored), &Json::Object(payload())));
    assert!(matches!(binding.restore(None), Ok(None)));
}

#[test]
fn a_checkpoint_is_bound_to_its_account_and_credential() {
    let writer = identity(OLD, "grant", None);
    let kept = checkpoint(&writer);
    for (account, revision) in [("other", 5), ("acct", 6)] {
        match writer.bind_account(account.to_owned(), revision).restore(Some(&kept)) {
            Err(error) => {
                assert_eq!(error.kind, ProviderErrorKind::InvalidRequest);
                assert_eq!(error.send_state, UpstreamSendState::NotSent);
                assert_eq!(
                    error.continuation_failure,
                    Some(ContinuationFailure::HistoryUnavailable)
                );
                assert_eq!(
                    error.continuation_recovery,
                    Some(ContinuationRecoveryDisposition::ClientReplayRequired)
                );
            }
            Ok(_) => panic!("the checkpoint is another account's"),
        }
    }
}

fn target(reader: &ContinuationIdentity, kept: &ProviderSessionState) -> Option<(bool, String)> {
    match reader.interpreter_target(Some(kept)) {
        Ok(InterpreterTarget::Current { previous_owner }) => {
            Some((true, previous_owner.unwrap_or_default()))
        }
        Ok(InterpreterTarget::Retired { owner }) => Some((false, owner)),
        Err(_) => None,
    }
}

#[test]
fn a_newer_process_takes_over_what_it_reads() {
    let writer = identity(OLD, "grant", state(1, &[1]));
    let kept = checkpoint(&writer);
    let reads = identity(NEW, "other grant", state(2, &[1, 2]));
    assert_eq!(target(&reads, &kept), Some((true, OLD.to_owned())));
    let reads_not = identity(NEW, "grant", state(2, &[2]));
    assert_eq!(target(&reads_not, &kept), Some((false, OLD.to_owned())));
    assert_eq!(target(&writer, &kept), Some((true, String::new())));
    let silent = identity(NEW, "grant", None);
    assert_eq!(target(&silent, &kept), Some((false, OLD.to_owned())));
}

#[test]
fn without_a_declared_state_only_the_same_plugin_takes_over() {
    let kept = checkpoint(&identity(OLD, "grant", None));
    assert_eq!(target(&identity(NEW, "grant", None), &kept), Some((true, OLD.to_owned())));
    assert_eq!(target(&identity(NEW, "changed", None), &kept), Some((false, OLD.to_owned())));
}

#[test]
fn foreign_checkpoints_are_refused() {
    let reader = identity(NEW, "grant", None);
    let writer = identity(OLD, "grant", None);
    let mut kept = checkpoint(&writer);
    kept.provider = "other".to_owned();
    assert_eq!(target(&reader, &kept), None);
    let named = identity("not-a-uuid", "grant", None);
    assert_eq!(target(&reader, &checkpoint(&named)), None);
    let empty = ProviderSessionState { provider: "custom".to_owned(), payload: vec![] };
    assert_eq!(target(&reader, &empty), None);
    assert!(matches!(
        reader.interpreter_target(None),
        Ok(InterpreterTarget::Current { previous_owner: None })
    ));
}

#[test]
fn checkpoints_are_bounded() {
    let writer = identity(OLD, "grant", None);
    let mut binding = writer.bind_account("acct".to_owned(), 5);
    let long = vec![("text".to_owned(), Json::text(&"x".repeat(65_536)))];
    match binding.capture(long) {
        Err(error) => {
            assert_eq!(error.kind, ProviderErrorKind::Protocol);
            assert_eq!(error.send_state, UpstreamSendState::Ambiguous);
        }
        Ok(_) => panic!("the checkpoint is too long"),
    }
    assert!(!binding.issued);
}

#[test]
fn declared_states_are_checked() {
    for broken in [
        state(0, &[0]),
        state(3, &[1, 2]),
        state(1, &[1, 1]),
        state(1, &[]),
        state(1, &(1..=33).collect::<Vec<u32>>()),
        Some(ContinuationStateDescriptor {
            format: "..".to_owned(),
            write_version: 1,
            readable_versions: vec![1],
        }),
    ] {
        let result = ContinuationIdentity::prepare(
            "custom".to_owned(),
            "grant".to_owned(),
            "conversations".to_owned(),
            broken,
            OLD.to_owned(),
        );
        match result {
            Err(error) => assert_eq!(error.reason, AdminReason::ContinuationState),
            Ok(_) => panic!("the declaration is broken"),
        }
    }
}

#[test]
fn processes_of_one_authority_stand_in_for_each_other() {
    let one = identity(OLD, "grant", None);
    assert!(one.matches_authority(&identity(NEW, "other", None)));
    let foreign = ContinuationIdentity::prepare(
        "custom".to_owned(),
        "grant".to_owned(),
        "other conversations".to_owned(),
        None,
        NEW.to_owned(),
    )
    .ok()
    .expect("a provider");
    assert!(!one.matches_authority(&foreign));
}
