use gateway_plugin::fault::{ProviderAdminError, ProviderAdminErrorKind};
use gateway_plugin::invalidation::{
    acknowledged, time_left, unavailable_notice, AccountInvalidation, FactsRound,
};
use gateway_plugin::json::Json;
use gateway_plugin::maintenance::{MaintenanceKind, WorkerKind};
use gateway_plugin::manifest::AccountOperation;
use gateway_plugin::worker::{
    account_outcome, current, profiles_outcome, task_id, worker_contributions, MaintenanceEntry,
    PluginInstance, PluginMaintenanceTask, Report, WorkerFailure,
};

fn entry(id: &str, revision: u64) -> MaintenanceEntry {
    MaintenanceEntry {
        instance_id: id.to_owned(),
        artifact_sha256: "sha".to_owned(),
        revision,
        supported: true,
    }
}

fn instance(id: &str, revision: u64) -> PluginInstance {
    PluginInstance {
        id: id.to_owned(),
        enabled: true,
        artifact_sha256: "sha".to_owned(),
        revision,
    }
}

#[test]
fn changed_accounts_are_told_in_portions() {
    let wanted = vec![AccountOperation::FactsChanged];
    let mut accounts: Vec<String> = (0..600).map(|i| format!("a{:03}", 599 - i)).collect();
    accounts.push("a000".to_owned());
    let mut round = FactsRound::new(&wanted, &accounts);
    let mut told: Vec<String> = Vec::new();
    let mut sizes: Vec<usize> = Vec::new();
    while let Some(AccountInvalidation::FactsChanged { account_ids }) = round.next_notice() {
        sizes.push(account_ids.len());
        told.extend(account_ids);
    }
    assert_eq!(sizes, vec![256, 256, 88]);
    accounts.sort();
    accounts.dedup();
    assert_eq!(told, accounts);
    assert!(FactsRound::new(&vec![], &accounts).next_notice().is_none());
    assert!(FactsRound::new(&wanted, &vec![]).next_notice().is_none());
}

#[test]
fn notices_are_sent_to_those_who_want_them() {
    let wanted = vec![AccountOperation::Unavailable];
    assert!(matches!(
        unavailable_notice(&wanted, "acct"),
        Some(AccountInvalidation::Unavailable { account_id }) if account_id == "acct"
    ));
    assert!(unavailable_notice(&vec![AccountOperation::FactsChanged], "acct").is_none());
    assert_eq!(time_left(10, 3), Some(7));
    assert_eq!(time_left(10, 10), None);
    assert_eq!(time_left(10, 11), None);
    let empty = Json::Object(vec![]);
    assert!(acknowledged(Some((&empty, &vec![]))));
    assert!(!acknowledged(Some((&empty, &vec![1]))));
    assert!(!acknowledged(Some((&Json::Null, &vec![]))));
    assert!(!acknowledged(None));
}

#[test]
fn each_task_has_its_worker() {
    let workers: Vec<(WorkerKind, &str, u64)> =
        MaintenanceKind::all().into_iter().map(MaintenanceKind::worker).collect();
    assert_eq!(
        workers,
        vec![
            (WorkerKind::OAuthRefresh, "plugin-credentials", 30),
            (WorkerKind::QuotaCatalogHealth, "plugin-quota", 300),
            (WorkerKind::QuotaCatalogHealth, "plugin-models", 300),
            (WorkerKind::QuotaCatalogHealth, "plugin-request-profiles", 3600),
        ]
    );
}

#[test]
fn each_worker_has_its_schedule() {
    let all = worker_contributions();
    assert_eq!(all.len(), 4);
    let first = all[0];
    assert_eq!(first.kind, MaintenanceKind::Credentials);
    assert_eq!((first.owner, first.interval), ("plugin-credentials", 30));
    assert_eq!((first.first_retry, first.last_retry), (1, 60));
    assert_eq!((first.lease, first.lease_renewal), (900, 300));
    let intervals: Vec<u64> = all.iter().map(|one| one.interval).collect();
    assert_eq!(intervals, vec![30, 300, 300, 3600]);
}

#[test]
fn instances_are_served_as_they_are_set_up() {
    assert!(current(&entry("a", 1), &vec![instance("b", 1), instance("a", 1)]));
    let off = PluginInstance { enabled: false, ..instance("a", 1) };
    let other = PluginInstance { artifact_sha256: "other".to_owned(), ..instance("a", 1) };
    for changed in [off, other, instance("a", 2), instance("b", 1)] {
        assert!(!current(&entry("a", 1), &vec![changed]));
    }
}

#[test]
fn a_round_begins_behind_the_last_one() {
    let mut task = PluginMaintenanceTask::new();
    let entries = vec![
        entry("a", 1),
        MaintenanceEntry { supported: false, ..entry("b", 1) },
        entry("c", 1),
        entry("d", 1),
    ];
    let instances =
        vec![instance("a", 1), instance("b", 1), instance("c", 1), instance("d", 1)];
    assert_eq!(task.plan(&entries, &instances), vec![0, 2, 3]);
    task.begin(&entries[0]);
    assert_eq!(task.plan(&entries, &instances), vec![2, 3, 0]);
    task.begin(&entries[3]);
    assert_eq!(task.plan(&entries, &instances), vec![0, 2, 3]);
    task.begin(&entry("gone", 1));
    assert_eq!(task.plan(&entries, &instances), vec![0, 2, 3]);
    assert!(task.plan(&entries, &vec![]).is_empty());
}

#[test]
fn the_list_of_accounts_goes_on() {
    let mut task = PluginMaintenanceTask::new();
    let entries = vec![entry("a", 1), entry("c", 1)];
    let instances = vec![instance("a", 1), instance("c", 1)];
    assert_eq!(task.cursor(&entries[0]), None);
    task.note(&entries[0], Some("x".to_owned()));
    task.note(&entries[1], Some("y".to_owned()));
    task.note(&entries[0], Some("z".to_owned()));
    assert_eq!(task.cursors.len(), 2);
    assert_eq!(task.cursor(&entries[0]).as_deref(), Some("z"));
    assert_eq!(task.cursor(&entry("a", 2)), None);
    let _ = task.plan(&entries, &vec![instance("a", 2), instance("c", 1)]);
    assert_eq!(task.cursor(&entries[0]), None);
    assert_eq!(task.cursor(&entries[1]).as_deref(), Some("y"));
    task.note(&entries[1], None);
    let _ = task.plan(&entries, &instances);
    assert_eq!(task.cursor(&entries[1]), None);
    assert_eq!(task.cursors.len(), 1);
}

#[test]
fn rounds_are_named() {
    let name = task_id("quota:plugin", &entry("a", 12));
    let prefix = "worker:quota:plugin:instance:a:revision:12:cycle:";
    assert!(name.starts_with(prefix));
    assert_eq!(name.len(), prefix.len() + 36);
    assert!(uuid::Uuid::parse_str(&name[prefix.len()..]).is_ok());
    assert_ne!(name, task_id("quota:plugin", &entry("a", 12)));
}

#[test]
fn the_first_failure_is_reported() {
    let failed = |kind| Err(ProviderAdminError { kind });
    assert_eq!(account_outcome(Ok(())), Ok(()));
    assert_eq!(account_outcome(failed(ProviderAdminErrorKind::Conflict)), Ok(()));
    assert_eq!(
        account_outcome(failed(ProviderAdminErrorKind::Invalid)),
        Err(WorkerFailure::Provider(ProviderAdminErrorKind::Invalid))
    );
    assert_eq!(
        profiles_outcome(failed(ProviderAdminErrorKind::Conflict)),
        Err(WorkerFailure::Provider(ProviderAdminErrorKind::Conflict))
    );
    let mut report = Report::new();
    assert_eq!(report.outcome(), Ok(()));
    for outcome in
        [Ok(()), Err(WorkerFailure::AccountList), Err(WorkerFailure::Timeout), Ok(())]
    {
        report.take(outcome);
    }
    assert_eq!(report.failed, 2);
    assert_eq!(report.outcome(), Err(WorkerFailure::AccountList));
}
