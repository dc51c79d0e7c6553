use gateway_plugin::fault::ProviderAdminErrorKind;
use gateway_plugin::manifest::AccountOperation;
use gateway_plugin::profile::{
    account_avatar, account_profile, check_days, profile, subscription, AvatarMetadata,
    AvatarStream, ProfileActivityInsights, ProfileDailyUsage, ProfileInvocation, ProfileSummary,
    ProviderProfileStatistics, ProviderSubscription, ReadDate,
};

fn empty() -> ProviderProfileStatistics {
    ProviderProfileStatistics {
        display_name: Some("Name".to_owned()),
        username: None,
        image_url: None,
        has_stats_error: false,
        summary: ProfileSummary {
            total_text_tokens: Some(3),
            peak_tokens: None,
            longest_task_duration_ms: None,
            current_streak_days: None,
            longest_streak_days: None,
        },
        daily_usage: None,
        activity_insights: ProfileActivityInsights {
            fast_mode_percent: Some(12.5_f64.to_bits()),
            reasoning_effort: None,
            reasoning_effort_percent: None,
            skills_explored: None,
            total_skills_used: None,
            total_threads: None,
            invocations: None,
        },
    }
}

fn days(dates: &[&str]) -> ProviderProfileStatistics {
    let daily_usage = dates
        .iter()
        .map(|date| ProfileDailyUsage { date: (*date).to_owned(), tokens: 1 })
        .collect();
    ProviderProfileStatistics { daily_usage: Some(daily_usage), ..empty() }
}

fn refused(value: ProviderProfileStatistics) -> bool {
    match profile(value) {
        Ok(_) => false,
        Err(error) => {
            assert_eq!(error.kind, ProviderAdminErrorKind::BadGateway);
            true
        }
    }
}

#[test]
fn days_are_calendar_days_and_named_once() {
    assert!(!refused(days(&["2024-02-29", "2024-03-01"])));
    for broken in [
        &["2023-02-29"][..],
        &["2024-2-29"],
        &["2024-02-29", "2024-02-29"],
        &["20240229"],
        &["+2024-02-2"],
        &[""],
    ] {
        assert!(refused(days(broken)), "{broken:?}");
    }
}

#[test]
fn days_are_judged_by_what_they_were_read_as() {
    let values = |dates: &[&str]| {
        dates
            .iter()
            .map(|date| ProfileDailyUsage { date: (*date).to_owned(), tokens: 1 })
            .collect::<Vec<_>>()
    };
    let read = |day: Option<i32>, printed: &str| ReadDate { day, printed: Some(printed.to_owned()) };
    let dates = ["2024-02-29", "2024-03-01"];
    assert!(check_days(&values(&dates), &vec![read(Some(1), dates[0]), read(Some(2), dates[1])]));
    for broken in [
        vec![read(Some(1), dates[0]), read(Some(1), dates[1])],
        vec![read(None, dates[0]), read(Some(2), dates[1])],
        vec![read(Some(1), "2024-2-29"), read(Some(2), dates[1])],
        vec![ReadDate { day: Some(1), printed: None }, read(Some(2), dates[1])],
    ] {
        assert!(!check_days(&values(&dates), &broken));
    }
    assert!(!check_days(&values(&["2024-2-29"]), &vec![read(Some(1), "2024-2-29")]));
}

#[test]
fn a_profile_is_checked() {
    assert!(!refused(empty()));
    let shown = profile(empty()).ok().expect("a profile");
    assert_eq!(shown.display_name.as_deref(), Some("Name"));
    assert_eq!(shown.activity_insights.fast_mode_percent, Some(12.5_f64.to_bits()));
    assert!(refused(ProviderProfileStatistics {
        username: Some("a\u{7}".to_owned()),
        ..empty()
    }));
    assert!(refused(ProviderProfileStatistics {
        image_url: Some("file:///etc".to_owned()),
        ..empty()
    }));
    let mut over = empty();
    over.activity_insights.reasoning_effort_percent = Some(100.5_f64.to_bits());
    assert!(refused(over));
    let invocation = |name: &str| {
        let mut value = empty();
        value.activity_insights.invocations = Some(vec![ProfileInvocation {
            invocation_type: name.to_owned(),
            plugin_id: None,
            plugin_name: None,
            skill_id: None,
            skill_name: None,
            usage_count: 1,
        }]);
        value
    };
    assert!(!refused(invocation("skill")));
    assert!(refused(invocation("")));
    let many: Vec<String> = (0..4097).map(|i| format!("x{i}")).collect();
    let many: Vec<&str> = many.iter().map(String::as_str).collect();
    assert!(refused(days(&many)));
}

#[test]
fn a_picture_is_only_named_where_it_can_be_fetched() {
    let pictured = || ProviderProfileStatistics {
        image_url: Some("https://example.com/me.png".to_owned()),
        ..empty()
    };
    assert!(account_profile(pictured(), &vec![AccountOperation::Avatar]).is_ok());
    assert_eq!(
        account_profile(pictured(), &vec![AccountOperation::Profile]).err().map(|e| e.kind),
        Some(ProviderAdminErrorKind::BadGateway)
    );
}

#[test]
fn subscriptions_end_after_they_start() {
    let value = |starts_at_ms, expires_at_ms| ProviderSubscription {
        starts_at_ms,
        expires_at_ms,
        will_renew: Some(true),
        billing_period: Some("month".to_owned()),
        billing_currency: None,
        observed_at_ms: 3,
    };
    assert!(subscription(value(Some(1), 1)).is_ok());
    assert!(subscription(value(None, 1)).is_ok());
    for broken in [value(Some(2), 1), value(None, i64::MAX), value(Some(i64::MIN), 1)] {
        assert_eq!(
            subscription(broken).err().map(|e| e.kind),
            Some(ProviderAdminErrorKind::BadGateway)
        );
    }
}

#[test]
fn a_picture_has_the_length_that_was_said() {
    let metadata = |content_type: &str, content_length| AvatarMetadata {
        content_type: Some(content_type.to_owned()),
        content_length,
        etag: None,
    };
    assert!(account_avatar(&metadata("image/png", Some(5))).is_ok());
    assert!(account_avatar(&metadata("image/\u{1}", None)).is_err());
    assert!(account_avatar(&metadata("é", None)).is_err());
    let mut stream = AvatarStream::new(&metadata("image/png", Some(5)));
    assert!(stream.receive(3).is_ok());
    assert!(stream.finish().is_err());
    assert!(stream.receive(2).is_ok());
    assert!(stream.finish().is_ok());
    assert!(stream.receive(1).is_err());
    let mut open = AvatarStream::new(&metadata("image/png", None));
    assert!(open.receive(u64::MAX).is_ok());
    assert!(open.finish().is_ok());
    assert!(open.receive(1).is_err());
}
