//! What a provider knows of the person behind an account.

use vstd::prelude::*;

use crate::address::{is_web_address, web_address};
use crate::fault::{admin, ProviderAdminError, ProviderAdminErrorKind};
use crate::manifest::{has_account_operation, AccountOperation};
use crate::moment::{
    day_text, is_moment, is_optional_moment, is_timestamp, parsed_day, read_day, write_day,
};
use crate::percent::{is_percentage, percentage};
use crate::text::{
    byte_len, contains_control, has_control, length_in_bytes, same, text_of,
};

verus! {

/// The most items of a list in a profile.
pub const MAX_PROFILE_ITEMS: usize = 4096;

/// The most bytes of a text in a profile.
pub const MAX_PROFILE_TEXT_BYTES: usize = 1024;

/// How many bytes a date takes.
pub const DATE_BYTES: usize = 10;

/// What a plugin answered cannot be used.
pub open spec fn unusable_answer() -> ProviderAdminError {
    admin(ProviderAdminErrorKind::BadGateway)
}

fn invalid_result() -> (error: ProviderAdminError)
    ensures
        error == unusable_answer(),
{
    ProviderAdminError::new(ProviderAdminErrorKind::BadGateway)
}

/// A text that can be shown: bounded and without control codes.
pub open spec fn is_text(text: Seq<char>) -> bool {
    byte_len(text) <= MAX_PROFILE_TEXT_BYTES && !has_control(text)
}

/// The same of a text that may be missing.
pub open spec fn is_optional_text(text: Option<String>) -> bool {
    text matches Some(t) ==> is_text(t@)
}

fn validate_text(text: &str) -> (r: bool)
    ensures
        r == is_text(text@),
{
    length_in_bytes(text) <= MAX_PROFILE_TEXT_BYTES && !contains_control(text)
}

fn optional_text(text: &Option<String>) -> (r: bool)
    ensures
        r == is_optional_text(*text),
{
    match text {
        Some(text) => validate_text(text.as_str()),
        None => true,
    }
}

fn optional_time(ms: Option<i64>) -> (r: bool)
    ensures
        r == is_optional_moment(ms),
{
    match ms {
        Some(ms) => is_timestamp(ms),
        None => true,
    }
}

/// A percentage that may be missing.
pub open spec fn is_optional_percentage(bits: Option<u64>) -> bool {
    bits matches Some(b) ==> is_percentage(b)
}

fn percent(bits: Option<u64>) -> (r: bool)
    ensures
        r == is_optional_percentage(bits),
{
    match bits {
        Some(bits) => percentage(bits),
        None => true,
    }
}

/// What an account pays for. Points in time are in milliseconds since the epoch.
pub struct ProviderSubscription {
    pub starts_at_ms: Option<i64>,
    pub expires_at_ms: i64,
    pub will_renew: Option<bool>,
    pub billing_period: Option<String>,
    pub billing_currency: Option<String>,
    pub observed_at_ms: i64,
}

/// A subscription that can be shown: it does not end before it starts.
pub open spec fn is_subscription(value: ProviderSubscription) -> bool {
    &&& is_optional_moment(value.starts_at_ms)
    &&& is_moment(value.expires_at_ms)
    &&& value.starts_at_ms matches Some(start) ==> start <= value.expires_at_ms
    &&& is_optional_text(value.billing_period)
    &&& is_optional_text(value.billing_currency)
    &&& is_moment(value.observed_at_ms)
}

pub fn subscription(value: ProviderSubscription) -> (result: Result<
    ProviderSubscription,
    ProviderAdminError,
>)
    ensures
        match result {
            Ok(shown) => is_subscription(value) && shown == value,
            Err(error) => !is_subscription(value) && error == unusable_answer(),
        },
{
    let ordered = match value.starts_at_ms {
        Some(start) => start <= value.expires_at_ms,
        None => true,
    };
    if !optional_time(value.starts_at_ms) || !is_timestamp(value.expires_at_ms) || !ordered
        || !optional_text(&value.billing_period) || !optional_text(&value.billing_currency)
        || !is_timestamp(value.observed_at_ms) {
        return Err(invalid_result());
    }
    Ok(value)
}

/// How much was used on a day.
pub struct ProfileDailyUsage {
    pub date: String,
    pub tokens: u64,
}

/// A date as it is printed, and nothing else that names the same day.
pub open spec fn is_date(text: Seq<char>) -> bool {
    &&& parsed_day(text) matches Some(day) && day_text(day) == Some(text)
    &&& byte_len(text) == DATE_BYTES
}

/// Days that are named once each.
pub open spec fn are_days(values: Seq<ProfileDailyUsage>) -> bool {
    &&& values.len() <= MAX_PROFILE_ITEMS
    &&& forall|i: int| 0 <= i < values.len() ==> is_date((#[trigger] values[i]).date@)
    &&& forall|i: int, j: int|
        0 <= i < j < values.len() ==> parsed_day((#[trigger] values[i]).date@) != parsed_day(
            (#[trigger] values[j]).date@,
        )
}

/// What a date was read as: the number of the day, and what is printed for that day.
pub struct ReadDate {
    pub day: Option<i32>,
    pub printed: Option<String>,
}

/// A date was read, and is printed as it is written.
pub open spec fn is_read_date(text: Seq<char>, read: ReadDate) -> bool {
    &&& read.day is Some
    &&& text_of(read.printed) == Some(text)
    &&& byte_len(text) == DATE_BYTES
}

/// Days that were read and are named once each. What each date was read as stands at its place.
pub open spec fn are_read_days(values: Seq<ProfileDailyUsage>, read: Seq<ReadDate>) -> bool {
    &&& values.len() <= MAX_PROFILE_ITEMS
    &&& forall|i: int|
        0 <= i < values.len() ==> is_read_date((#[trigger] values[i]).date@, read[i])
    &&& forall|i: int, j: int|
        0 <= i < j < values.len() ==> (#[trigger] read[i]).day != (#[trigger] read[j]).day
}

/// Whether days that were read are dates, and named once each.
pub fn check_days(values: &Vec<ProfileDailyUsage>, read: &Vec<ReadDate>) -> (r: bool)
    requires
        read@.len() == values@.len(),
    ensures
        r == are_read_days(values@, read@),
{
    if values.len() > MAX_PROFILE_ITEMS {
        return false;
    }
    for i in 0..values.len()
        invariant
            read@.len() == values@.len(),
            forall|j: int|
                0 <= j < i ==> is_read_date((#[trigger] values@[j]).date@, read@[j]),
            forall|j: int, k: int|
                0 <= j < k < i ==> (#[trigger] read@[j]).day != (#[trigger] read@[k]).day,
    {
        let text = values[i].date.as_str();
        let printed = match &read[i].printed {
            Some(printed) => same(printed.as_str(), text),
            None => false,
        };
        let day = match read[i].day {
            Some(day) if printed && length_in_bytes(text) == DATE_BYTES => day,
            _ => {
                assert(!is_read_date(values@[i as int].date@, read@[i as int]));
                return false;
            },
        };
        for j in 0..i
            invariant
                i < values@.len(),
                read@.len() == values@.len(),
                read@[i as int].day == Some(day),
                forall|k: int| 0 <= k < j ==> (#[trigger] read@[k]).day != read@[i as int].day,
        {
            match read[j].day {
                Some(other) => if other == day {
                    assert(read@[j as int].day == read@[i as int].day);
                    return false;
                },
                None => {},
            }
        }
    }
    true
}

fn days(values: &Vec<ProfileDailyUsage>) -> (r: bool)
    ensures
        r == are_days(values@),
{
    if values.len() > MAX_PROFILE_ITEMS {
        return false;
    }
    let mut read: Vec<ReadDate> = Vec::new();
    for i in 0..values.len()
        invariant
            read@.len() == i,
            forall|j: int|
                0 <= j < i ==> (#[trigger] read@[j]).day == parsed_day(values@[j].date@)
                    && text_of(read@[j].printed) == (match read@[j].day {
                    Some(day) => day_text(day),
                    None => None,
                }),
    {
        let day = read_day(values[i].date.as_str());
        let printed = match day {
            Some(day) => write_day(day),
            None => None,
        };
        read.push(ReadDate { day, printed });
    }
    proof {
        assert forall|i: int| 0 <= i < values@.len() implies is_read_date(
            (#[trigger] values@[i]).date@,
            read@[i],
        ) == is_date(values@[i].date@) by {
            assert(read@[i].day == parsed_day(values@[i].date@));
        }
        if are_days(values@) {
            assert forall|i: int, j: int| 0 <= i < j < values@.len() implies (
            #[trigger] read@[i]).day != (#[trigger] read@[j]).day by {
                assert(parsed_day(values@[i].date@) != parsed_day(values@[j].date@));
            }
        }
        if are_read_days(values@, read@) {
            assert forall|i: int, j: int| 0 <= i < j < values@.len() implies parsed_day(
                (#[trigger] values@[i]).date@,
            ) != parsed_day((#[trigger] values@[j]).date@) by {
                assert(read@[i].day != read@[j].day);
            }
            assert forall|i: int| 0 <= i < values@.len() implies is_date(
                (#[trigger] values@[i]).date@,
            ) by {
                assert(is_read_date(values@[i].date@, read@[i]));
            }
        }
    }
    check_days(values, &read)
}

/// How often something was used.
pub struct ProfileInvocation {
    pub invocation_type: String,
    pub plugin_id: Option<String>,
    pub plugin_name: Option<String>,
    pub skill_id: Option<String>,
    pub skill_name: Option<String>,
    pub usage_count: u64,
}

/// Something that was used can be shown.
pub open spec fn is_invocation(value: ProfileInvocation) -> bool {
    &&& is_text(value.invocation_type@)
    &&& byte_len(value.invocation_type@) > 0
    &&& is_optional_text(value.plugin_id)
    &&& is_optional_text(value.plugin_name)
    &&& is_optional_text(value.skill_id)
    &&& is_optional_text(value.skill_name)
}

/// What was used can be shown.
pub open spec fn are_invocations(values: Seq<ProfileInvocation>) -> bool {
    values.len() <= MAX_PROFILE_ITEMS && forall|i: int|
        0 <= i < values.len() ==> is_invocation(#[trigger] values[i])
}

fn invocations(values: &Vec<ProfileInvocation>) -> (r: bool)
    ensures
        r == are_invocations(values@),
{
    if values.len() > MAX_PROFILE_ITEMS {
        return false;
    }
    for i in 0..values.len()
        invariant
            forall|j: int| 0 <= j < i ==> is_invocation(#[trigger] values@[j]),
    {
        let value = &values[i];
        if !validate_text(value.invocation_type.as_str()) || length_in_bytes(
            value.invocation_type.as_str(),
        ) == 0 || !optional_text(&value.plugin_id) || !optional_text(&value.plugin_name)
            || !optional_text(&value.skill_id) || !optional_text(&value.skill_name) {
            assert(!is_invocation(values@[i as int]));
            return false;
        }
    }
    true
}

/// What is known of how an account is used. Percentages are held by their bits.
pub struct ProfileActivityInsights {
    pub fast_mode_percent: Option<u64>,
    pub reasoning_effort: Option<String>,
    pub reasoning_effort_percent: Option<u64>,
    pub skills_explored: Option<u64>,
    pub total_skills_used: Option<u64>,
    pub total_threads: Option<u64>,
    pub invocations: Option<Vec<ProfileInvocation>>,
}

/// How much an account was used.
#[derive(Clone, Copy, Debug, PartialEq, Eq, Structural)]
pub struct ProfileSummary {
    pub total_text_tokens: Option<u64>,
    pub peak_tokens: Option<u64>,
    pub longest_task_duration_ms: Option<u64>,
    pub current_streak_days: Option<u64>,
    pub longest_streak_days: Option<u64>,
}

/// What a provider knows of the person behind an account.
pub struct ProviderProfileStatistics {
    pub display_name: Option<String>,
    pub username: Option<String>,
    pub image_url: Option<String>,
    pub has_stats_error: bool,
    pub summary: ProfileSummary,
    pub daily_usage: Option<Vec<ProfileDailyUsage>>,
    pub activity_insights: ProfileActivityInsights,
}

/// A profile that can be shown.
pub open spec fn is_profile(value: ProviderProfileStatistics) -> bool {
    let insights = value.activity_insights;
    &&& is_optional_text(value.image_url)
    &&& value.image_url matches Some(url) ==> is_web_address(url@)
    &&& value.daily_usage matches Some(values) ==> are_days(values@)
    &&& insights.invocations matches Some(values) ==> are_invocations(values@)
    &&& is_optional_text(value.display_name)
    &&& is_optional_text(value.username)
    &&& is_optional_percentage(insights.fast_mode_percent)
    &&& is_optional_text(insights.reasoning_effort)
    &&& is_optional_percentage(insights.reasoning_effort_percent)
}

/// Takes the profile that a plugin answered.
pub fn profile(value: ProviderProfileStatistics) -> (result: Result<
    ProviderProfileStatistics,
    ProviderAdminError,
>)
    ensures
        match result {
            Ok(shown) => is_profile(value) && shown == value,
            Err(error) => !is_profile(value) && error == unusable_answer(),
        },
{
    if !optional_text(&value.image_url) {
        return Err(invalid_result());
    }
    match &value.image_url {
        Some(url) => if !web_address(url.as_str()) {
            return Err(invalid_result());
        },
        None => {},
    }
    match &value.daily_usage {
        Some(values) => if !days(values) {
            return Err(invalid_result());
        },
        None => {},
    }
    let insights = &value.activity_insights;
    match &insights.invocations {
        Some(values) => if !invocations(values) {
            return Err(invalid_result());
        },
        None => {},
    }
    if !optional_text(&value.display_name) || !optional_text(&value.username) || !percent(
        insights.fast_mode_percent,
    ) || !optional_text(&insights.reasoning_effort) || !percent(insights.reasoning_effort_percent) {
        return Err(invalid_result());
    }
    Ok(value)
}

/// Takes the profile that a plugin answered, if the provider can show the picture in it.
pub fn account_profile(value: ProviderProfileStatistics, operations: &Vec<AccountOperation>) -> (result:
    Result<ProviderProfileStatistics, ProviderAdminError>)
    ensures
        match result {
            Ok(shown) => is_profile(value) && shown == value && (value.image_url is Some
                ==> operations@.contains(AccountOperation::Avatar)),
            Err(error) => error == unusable_answer() && (!is_profile(value) || value.image_url
                is Some && !operations@.contains(AccountOperation::Avatar)),
        },
{
    if value.image_url.is_some() && !has_account_operation(operations, AccountOperation::Avatar) {
        return Err(invalid_result());
    }
    profile(value)
}

/// What comes with a picture.
pub struct AvatarMetadata {
    pub content_type: Option<String>,
    pub content_length: Option<u64>,
    pub etag: Option<String>,
}

/// A header of a picture is bounded and printable.
pub open spec fn is_printable(text: Seq<char>) -> bool {
    byte_len(text) <= MAX_PROFILE_TEXT_BYTES && forall|i: int|
        0 <= i < text.len() ==> ' ' <= #[trigger] text[i] <= '~'
}

/// What comes with a picture can be passed on.
pub open spec fn is_avatar(metadata: AvatarMetadata) -> bool {
    (metadata.content_type matches Some(t) ==> is_printable(t@)) && (metadata.etag matches Some(t)
        ==> is_printable(t@))
}

fn printable(text: &str) -> (r: bool)
    ensures
        r == is_printable(text@),
{
    if length_in_bytes(text) > MAX_PROFILE_TEXT_BYTES {
        return false;
    }
    for c in it: text.chars()
        invariant
            it.seq() == text@,
            forall|i: int| 0 <= i < it.index() ==> ' ' <= #[trigger] text@[i] <= '~',
    {
        if c < ' ' || c > '~' {
            assert(!(' ' <= text@[it.index()] <= '~'));
            return false;
        }
    }
    true
}

/// Takes what comes with a picture.
pub fn account_avatar(metadata: &AvatarMetadata) -> (result: Result<(), ProviderAdminError>)
    ensures
        result == (if is_avatar(*metadata) {
            Ok::<(), ProviderAdminError>(())
        } else {
            Err(unusable_answer())
        }),
{
    let content_type = match &metadata.content_type {
        Some(text) => printable(text.as_str()),
        None => true,
    };
    let etag = match &metadata.etag {
        Some(text) => printable(text.as_str()),
        None => true,
    };
    if content_type && etag {
        Ok(())
    } else {
        Err(invalid_result())
    }
}

/// A picture that is being received: how many bytes it has, where that was said, and how many came.
#[derive(Clone, Copy, Debug, PartialEq, Eq, Structural)]
pub struct AvatarStream {
    pub length: Option<u64>,
    pub received: u64,
}

/// The picture did not come as it was announced.
#[derive(Clone, Copy, Debug, PartialEq, Eq, Structural)]
pub struct AvatarStreamError;

impl AvatarStream {
    pub fn new(metadata: &AvatarMetadata) -> (stream: Self)
        ensures
            stream.length == metadata.content_length,
            stream.received == 0,
            stream.within(),
    {
        AvatarStream { length: metadata.content_length, received: 0 }
    }

    /// No more came than was announced.
    pub open spec fn within(&self) -> bool {
        self.length matches Some(length) ==> self.received <= length
    }

    /// Takes some bytes more.
    pub fn receive(&mut self, bytes: u64) -> (result: Result<(), AvatarStreamError>)
        ensures
            final(self).receives(old(self), bytes, result),
            result is Ok ==> final(self).within(),
    {
        let total = match self.received.checked_add(bytes) {
            Some(total) => total,
            None => return Err(AvatarStreamError),
        };
        match self.length {
            Some(length) => if total > length {
                return Err(AvatarStreamError);
            },
            None => {},
        }
        self.received = total;
        Ok(())
    }

    /// The end: all that was announced has come.
    pub fn finish(&self) -> (result: Result<(), AvatarStreamError>)
        ensures
            result is Ok == (self.length matches Some(length) ==> self.received == length),
    {
        match self.length {
            Some(length) => if self.received == length {
                Ok(())
            } else {
                Err(AvatarStreamError)
            },
            None => Ok(()),
        }
    }
}

/// Different dates in a profile are written differently: to name each day once is to write each
/// date once.
pub proof fn days_are_written_once(values: Seq<ProfileDailyUsage>, i: int, j: int)
    requires
        are_days(values),
        0 <= i < j < values.len(),
    ensures
        values[i].date@ != values[j].date@,
{
}

/// A text of a profile can be shown exactly if it has at most 1024 bytes and no control code.
pub proof fn shown_texts(text: Seq<char>)
    ensures
        is_text(text) <==> byte_len(text) <= 1024 && forall|i: int|
            0 <= i < text.len() ==> !crate::text::is_control(#[trigger] text[i]),
{
}

/// A subscription can be shown exactly if it ends at a point of the calendar, starts at one that is
/// not after it, if its start is known, and its texts can be shown.
pub proof fn subscriptions_in_order(value: ProviderSubscription)
    ensures
        is_subscription(value) <==> {
            &&& is_moment(value.expires_at_ms)
            &&& is_moment(value.observed_at_ms)
            &&& value.starts_at_ms is Some ==> is_moment(value.starts_at_ms->0)
                && value.starts_at_ms->0 <= value.expires_at_ms
            &&& value.billing_period is Some ==> is_text(value.billing_period->0@)
            &&& value.billing_currency is Some ==> is_text(value.billing_currency->0@)
        },
{
}

/// A profile can be shown exactly if its texts can be, its picture is at a web address, its days are
/// dates that are named once each, its percentages are some, and what was used can be shown.
pub proof fn profiles_in_order(value: ProviderProfileStatistics)
    ensures
        is_profile(value) <==> {
            let insights = value.activity_insights;
            &&& value.display_name is Some ==> is_text(value.display_name->0@)
            &&& value.username is Some ==> is_text(value.username->0@)
            &&& value.image_url is Some ==> is_text(value.image_url->0@) && is_web_address(
                value.image_url->0@,
            )
            &&& value.daily_usage is Some ==> are_days(value.daily_usage->0@)
            &&& insights.invocations is Some ==> are_invocations(insights.invocations->0@)
            &&& insights.reasoning_effort is Some ==> is_text(insights.reasoning_effort->0@)
            &&& insights.fast_mode_percent is Some ==> is_percentage(insights.fast_mode_percent->0)
            &&& insights.reasoning_effort_percent is Some ==> is_percentage(
                insights.reasoning_effort_percent->0,
            )
        },
{
}

/// The days of a profile are at most 4096, each is a date of ten bytes that is written as it is
/// printed, and no two of them are the same day.
pub proof fn days_in_order(values: Seq<ProfileDailyUsage>)
    ensures
        are_days(values) <==> values.len() <= 4096 && (forall|i: int|
            0 <= i < values.len() ==> byte_len((#[trigger] values[i]).date@) == 10 && parsed_day(
                values[i].date@,
            ) is Some && day_text(parsed_day(values[i].date@)->0) == Some(values[i].date@)) && (
        forall|i: int, j: int|
            0 <= i < values.len() && 0 <= j < values.len() && parsed_day(
                (#[trigger] values[i]).date@,
            ) == parsed_day((#[trigger] values[j]).date@) ==> i == j),
{
    if values.len() <= 4096 {
        assert forall|i: int| 0 <= i < values.len() implies is_date((#[trigger] values[i]).date@)
            == (byte_len(values[i].date@) == 10 && parsed_day(values[i].date@) is Some && day_text(
            parsed_day(values[i].date@)->0,
        ) == Some(values[i].date@)) by {}
    }
}

/// What was used is named at most 4096 times; each has a kind that says something, and its texts can
/// be shown.
pub proof fn invocations_in_order(values: Seq<ProfileInvocation>)
    ensures
        are_invocations(values) <==> values.len() <= 4096 && forall|i: int|
            0 <= i < values.len() ==> {
                let value = #[trigger] values[i];
                &&& is_text(value.invocation_type@) && byte_len(value.invocation_type@) > 0
                &&& value.plugin_id is Some ==> is_text(value.plugin_id->0@)
                &&& value.plugin_name is Some ==> is_text(value.plugin_name->0@)
                &&& value.skill_id is Some ==> is_text(value.skill_id->0@)
                &&& value.skill_name is Some ==> is_text(value.skill_name->0@)
            },
{
    assert forall|i: int| 0 <= i < values.len() implies is_invocation(#[trigger] values[i]) == {
        let value = values[i];
        &&& is_text(value.invocation_type@) && byte_len(value.invocation_type@) > 0
        &&& value.plugin_id is Some ==> is_text(value.plugin_id->0@)
        &&& value.plugin_name is Some ==> is_text(value.plugin_name->0@)
        &&& value.skill_id is Some ==> is_text(value.skill_id->0@)
        &&& value.skill_name is Some ==> is_text(value.skill_name->0@)
    } by {}
}

/// What comes with a picture is passed on exactly if its media type and its mark have at most 1024
/// bytes each, all of which can be printed.
pub proof fn avatars_in_order(metadata: AvatarMetadata)
    ensures
        is_avatar(metadata) <==> {
            &&& metadata.content_type is Some ==> byte_len(metadata.content_type->0@) <= 1024
                && forall|i: int|
                0 <= i < metadata.content_type->0@.len() ==> (
                #[trigger] metadata.content_type->0@[i]) >= '\u{20}' && metadata.content_type->0@[i]
                    < '\u{7f}'
            &&& metadata.etag is Some ==> byte_len(metadata.etag->0@) <= 1024 && forall|i: int|
                0 <= i < metadata.etag->0@.len() ==> (#[trigger] metadata.etag->0@[i]) >= '\u{20}'
                    && metadata.etag->0@[i] < '\u{7f}'
        },
{
}

/// A profile or a picture that cannot be used is a bad answer of the other side.
pub proof fn unusable_is_a_bad_answer()
    ensures
        unusable_answer().kind is BadGateway,
{
}

impl AvatarStream {
    /// What taking some more bytes does.
    pub open spec fn receives(
        &self,
        before: &Self,
        bytes: u64,
        result: Result<(), AvatarStreamError>,
    ) -> bool {
        let total = before.received + bytes;
        let fits = total <= u64::MAX && (before.length matches Some(length) ==> total <= length);
        &&& self.length == before.length
        &&& result is Ok == fits
        &&& self.received == (if fits {
            total as u64
        } else {
            before.received
        })
    }
}

/// Bytes are counted one portion after another, and are refused once more come than were announced;
/// what is refused is not counted.
pub proof fn bytes_are_counted(
    first: AvatarStream,
    second: AvatarStream,
    third: AvatarStream,
    a: u64,
    b: u64,
    one: Result<(), AvatarStreamError>,
    other: Result<(), AvatarStreamError>,
)
    requires
        second.receives(&first, a, one),
        third.receives(&second, b, other),
    ensures
        one is Ok && other is Ok ==> third.received == first.received + a + b,
        one is Err ==> second.received == first.received,
        first.length matches Some(length) ==> (one is Ok ==> second.received <= length),
        first.length matches Some(length) ==> (first.received + a > length ==> one is Err),
        first.length matches Some(length) ==> (first.received + a <= length ==> one is Ok),
        first.length is None && first.received + a <= u64::MAX ==> one is Ok,
        third.length == first.length,
{
}

} // verus!
