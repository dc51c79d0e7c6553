//! Forecasts of an account's quota that come with a response.

use vstd::prelude::*;

use crate::fault::{
    bare_error, stream_protocol_error, ProviderError, ProviderErrorKind, UpstreamSendState,
};
use crate::json::{member, put, Json, JsonView};
use crate::moment::{is_moment, is_timestamp};
use crate::percent::{amount, is_amount, is_percentage, percentage};
use crate::quota::{ProviderQuotaWindow, QuotaLocalUsageAttribution, QuotaWindowRole};
use crate::text::{
    is_optional_plain_text, is_plain_text, optional_plain_text, plain_text, same, same_optional,
    text_of,
};

verus! {

/// The most windows that a forecast may hold.
pub const MAX_WINDOWS: usize = 64;

/// The most bytes of a text in a forecast.
pub const MAX_TEXT_BYTES: usize = 1024;

/// What a window of a quota is expected to hold.
pub struct QuotaForecastWindow {
    pub key: String,
    pub group: String,
    pub limit_id: Option<String>,
    pub role: Option<QuotaWindowRole>,
    pub account_wide: bool,
    pub window_seconds: u64,
    /// The bits of the percentage.
    pub used_percent: u64,
    pub reset_at_ms: i64,
}

/// What an account's quota is expected to hold.
pub struct QuotaForecast {
    pub plan_type: Option<String>,
    pub windows: Vec<QuotaForecastWindow>,
}

/// A window that can be kept.
pub open spec fn is_forecast_window(window: QuotaForecastWindow) -> bool {
    &&& is_plain_text(window.key@, MAX_TEXT_BYTES as nat)
    &&& is_plain_text(window.group@, MAX_TEXT_BYTES as nat)
    &&& is_optional_plain_text(window.limit_id, MAX_TEXT_BYTES as nat)
    &&& 0 < window.window_seconds <= i64::MAX
    &&& is_amount(window.used_percent)
    &&& is_moment(window.reset_at_ms)
}

/// A forecast that can be kept.
pub open spec fn is_forecast(forecast: QuotaForecast) -> bool {
    let windows = forecast.windows@;
    &&& 0 < windows.len() <= MAX_WINDOWS
    &&& is_optional_plain_text(forecast.plan_type, MAX_TEXT_BYTES as nat)
    &&& forall|i: int| 0 <= i < windows.len() ==> is_forecast_window(#[trigger] windows[i])
    &&& forall|i: int, j: int|
        0 <= i < j < windows.len() ==> (#[trigger] windows[i]).key@ != (#[trigger] windows[j]).key@
}

fn valid_window(window: &QuotaForecastWindow) -> (r: bool)
    ensures
        r == is_forecast_window(*window),
{
    plain_text(window.key.as_str(), MAX_TEXT_BYTES) && plain_text(
        window.group.as_str(),
        MAX_TEXT_BYTES,
    ) && optional_plain_text(&window.limit_id, MAX_TEXT_BYTES) && window.window_seconds != 0
        && window.window_seconds <= i64::MAX as u64 && amount(window.used_percent) && is_timestamp(
        window.reset_at_ms,
    )
}

pub fn validate(forecast: &QuotaForecast) -> (r: bool)
    ensures
        r == is_forecast(*forecast),
{
    let windows = &forecast.windows;
    if windows.len() == 0 || windows.len() > MAX_WINDOWS || !optional_plain_text(
        &forecast.plan_type,
        MAX_TEXT_BYTES,
    ) {
        return false;
    }
    for i in 0..windows.len()
        invariant
            windows@ == forecast.windows@,
            forall|j: int| 0 <= j < i ==> is_forecast_window(#[trigger] windows@[j]),
            forall|j: int, k: int|
                0 <= j < k < i ==> (#[trigger] windows@[j]).key@ != (#[trigger] windows@[k]).key@,
    {
        for j in 0..i
            invariant
                i < windows@.len(),
                windows@ == forecast.windows@,
                forall|k: int|
                    0 <= k < j ==> (#[trigger] windows@[k]).key@ != windows@[i as int].key@,
        {
            if same(windows[j].key.as_str(), windows[i].key.as_str()) {
                return false;
            }
        }
        if !valid_window(&windows[i]) {
            return false;
        }
    }
    true
}

/// Takes a forecast that came with a response.
pub fn metadata(forecast: QuotaForecast) -> (result: Result<QuotaForecast, ProviderError>)
    ensures
        match result {
            Ok(kept) => is_forecast(forecast) && kept == forecast,
            Err(error) => !is_forecast(forecast) && error == bare_error(
                ProviderErrorKind::Protocol,
                UpstreamSendState::Ambiguous,
            ),
        },
{
    if validate(&forecast) {
        Ok(forecast)
    } else {
        Err(stream_protocol_error())
    }
}

/// What was forecast of a window, and for which plan.
pub struct QuotaForecastObservation {
    pub used_percent: u64,
    pub reset_at_ms: i64,
    pub plan_type: Option<String>,
}

/// A forecast is about a window of a quota, and can be compared with what was used.
pub open spec fn is_about(forecast: QuotaForecastWindow, window: ProviderQuotaWindow) -> bool {
    &&& forecast.account_wide
    &&& forecast.key@ == window.key@
    &&& forecast.group@ == window.group@
    &&& text_of(forecast.limit_id) == text_of(window.limit_id)
    &&& forecast.role == window.role
    &&& window.window_seconds == Some(forecast.window_seconds)
    &&& is_percentage(forecast.used_percent)
}

/// The first forecast that is about a window.
pub open spec fn forecast_of(
    forecasts: Seq<QuotaForecastWindow>,
    window: ProviderQuotaWindow,
) -> Option<QuotaForecastWindow>
    decreases forecasts.len(),
{
    if forecasts.len() == 0 {
        None
    } else if is_about(forecasts[0], window) {
        Some(forecasts[0])
    } else {
        forecast_of(forecasts.skip(1), window)
    }
}

fn same_role(left: Option<QuotaWindowRole>, right: Option<QuotaWindowRole>) -> (r: bool)
    ensures
        r == (left == right),
{
    match (left, right) {
        (None, None) => true,
        (Some(QuotaWindowRole::Primary), Some(QuotaWindowRole::Primary)) => true,
        (Some(QuotaWindowRole::Secondary), Some(QuotaWindowRole::Secondary)) => true,
        (Some(QuotaWindowRole::Monthly), Some(QuotaWindowRole::Monthly)) => true,
        _ => false,
    }
}

fn about(forecast: &QuotaForecastWindow, window: &ProviderQuotaWindow) -> (r: bool)
    ensures
        r == is_about(*forecast, *window),
{
    let same_length = match window.window_seconds {
        Some(seconds) => seconds == forecast.window_seconds,
        None => false,
    };
    forecast.account_wide && same(forecast.key.as_str(), window.key.as_str()) && same(
        forecast.group.as_str(),
        window.group.as_str(),
    ) && same_optional(&forecast.limit_id, &window.limit_id) && same_role(
        forecast.role,
        window.role,
    ) && same_length && percentage(forecast.used_percent)
}

/// What a kept forecast says of a window. `forecast` is what the kept document holds, where it
/// holds a forecast.
pub fn observation(forecast: Option<QuotaForecast>, window: &ProviderQuotaWindow) -> (observed: Option<
    QuotaForecastObservation,
>)
    ensures
        is_foreseen(forecast, *window, observed),
{
    if window.local_usage_attribution != QuotaLocalUsageAttribution::AccountWide {
        return None;
    }
    let kept = match &forecast {
        Some(kept) => kept,
        None => return None,
    };
    if !validate(kept) {
        return None;
    }
    let windows = &kept.windows;
    let mut i: usize = 0;
    assert(windows@.skip(0) =~= windows@);
    while i < windows.len()
        invariant
            forecast == Some(*kept),
            is_forecast(*kept),
            window.local_usage_attribution == QuotaLocalUsageAttribution::AccountWide,
            i <= windows@.len(),
            windows@ == kept.windows@,
            forecast_of(windows@, *window) == forecast_of(windows@.skip(i as int), *window),
        decreases windows@.len() - i,
    {
        proof {
            let rest = windows@.skip(i as int);
            assert(rest[0] == windows@[i as int]);
            assert(rest.skip(1) =~= windows@.skip(i + 1));
        }
        if about(&windows[i], window) {
            return Some(
                QuotaForecastObservation {
                    used_percent: windows[i].used_percent,
                    reset_at_ms: windows[i].reset_at_ms,
                    plan_type: match &kept.plan_type {
                        Some(plan) => Some(plan.clone()),
                        None => None,
                    },
                },
            );
        }
        i = i + 1;
    }
    None
}

/// What is observed of a window is a percentage, and its end is a point in time.
pub proof fn observed_is_percentage(forecast: QuotaForecast, window: ProviderQuotaWindow)
    requires
        is_forecast(forecast),
    ensures
        forecast_of(forecast.windows@, window) matches Some(found) ==> is_percentage(
            found.used_percent,
        ) && is_moment(found.reset_at_ms) && is_about(found, window),
{
    lemma_found_is_listed(forecast.windows@, window);
}

proof fn lemma_found_is_listed(forecasts: Seq<QuotaForecastWindow>, window: ProviderQuotaWindow)
    ensures
        forecast_of(forecasts, window) matches Some(found) ==> forecasts.contains(found)
            && is_about(found, window),
    decreases forecasts.len(),
{
    if forecasts.len() > 0 && !is_about(forecasts[0], window) {
        let rest = forecasts.skip(1);
        lemma_found_is_listed(rest, window);
        if forecast_of(rest, window) is Some {
            let i = choose|i: int| 0 <= i < rest.len() && rest[i] == forecast_of(rest, window)->0;
            assert(forecasts[i + 1] == rest[i]);
        }
    }
}

/// The document that is stored of a forecast.
pub open spec fn forecast_document(forecast: JsonView) -> JsonView {
    JsonView::Object(Map::empty().insert("plugin_quota_forecast_v1"@, forecast))
}

/// Puts a forecast, as it is written down, into the document that is stored of it.
pub fn store_forecast(forecast: Json) -> (document: Json)
    ensures
        document@ == forecast_document(forecast@),
{
    let mut members: Vec<(String, Json)> = Vec::new();
    put(&mut members, "plugin_quota_forecast_v1", forecast);
    Json::Object(members)
}

/// The forecast in a document that is stored, where there is one.
pub fn kept_forecast(document: &Json) -> (forecast: Option<&Json>)
    ensures
        forecast is Some == member(document@, "plugin_quota_forecast_v1"@) is Some,
        forecast matches Some(kept) ==> member(document@, "plugin_quota_forecast_v1"@) == Some(kept@),
{
    document.get("plugin_quota_forecast_v1")
}

/// What was stored of a forecast is read back.
pub proof fn stored_forecast_is_kept(forecast: JsonView)
    ensures
        member(forecast_document(forecast), "plugin_quota_forecast_v1"@) == Some(forecast),
{
}

/// A forecast can be kept exactly if it has 1 to 64 windows, no two of the same key, each with plain
/// texts of at most 1024 bytes, a length that is not nothing, an amount, and an end in the calendar.
pub proof fn forecasts_in_order(forecast: QuotaForecast)
    ensures
        is_forecast(forecast) <==> {
            &&& 1 <= forecast.windows@.len() <= 64
            &&& forecast.plan_type is Some ==> is_plain_text(forecast.plan_type->0@, 1024)
            &&& forall|i: int|
                0 <= i < forecast.windows@.len() ==> {
                    let window = #[trigger] forecast.windows@[i];
                    &&& is_plain_text(window.key@, 1024)
                    &&& is_plain_text(window.group@, 1024)
                    &&& window.limit_id is Some ==> is_plain_text(window.limit_id->0@, 1024)
                    &&& 1 <= window.window_seconds <= 0x7fff_ffff_ffff_ffff
                    &&& is_amount(window.used_percent)
                    &&& is_moment(window.reset_at_ms)
                }
            &&& forall|i: int, j: int|
                0 <= i < j < forecast.windows@.len() ==> (#[trigger] forecast.windows@[i]).key@ != (
                #[trigger] forecast.windows@[j]).key@
        },
{
    assert forall|i: int| 0 <= i < forecast.windows@.len() implies is_forecast_window(
        #[trigger] forecast.windows@[i],
    ) == {
        let window = forecast.windows@[i];
        &&& is_plain_text(window.key@, 1024)
        &&& is_plain_text(window.group@, 1024)
        &&& window.limit_id is Some ==> is_plain_text(window.limit_id->0@, 1024)
        &&& 1 <= window.window_seconds <= 0x7fff_ffff_ffff_ffff
        &&& is_amount(window.used_percent)
        &&& is_moment(window.reset_at_ms)
    } by {}
}

/// A forecast is held against a window exactly if it is for the whole account, gives a percentage, and
/// agrees with the window in key, group, limit, role and length.
pub proof fn forecasts_of_a_window(forecast: QuotaForecastWindow, window: ProviderQuotaWindow)
    ensures
        is_about(forecast, window) <==> {
            &&& forecast.account_wide
            &&& is_percentage(forecast.used_percent)
            &&& forecast.key@ == window.key@
            &&& forecast.group@ == window.group@
            &&& forecast.limit_id is Some <==> window.limit_id is Some
            &&& forecast.limit_id is Some ==> forecast.limit_id->0@ == window.limit_id->0@
            &&& forecast.role == window.role
            &&& window.window_seconds is Some && window.window_seconds->0 == forecast.window_seconds
        },
{
}

/// What is said of a window is the first forecast about it, and something is said wherever there is
/// one.
pub proof fn first_forecast_counts(
    forecasts: Seq<QuotaForecastWindow>,
    window: ProviderQuotaWindow,
)
    ensures
        match forecast_of(forecasts, window) {
            Some(found) => exists|k: int|
                0 <= k < forecasts.len() && #[trigger] forecasts[k] == found && is_about(
                    found,
                    window,
                ) && (forall|j: int| 0 <= j < k ==> !is_about(#[trigger] forecasts[j], window)),
            None => forall|k: int|
                0 <= k < forecasts.len() ==> !is_about(#[trigger] forecasts[k], window),
        },
    decreases forecasts.len(),
{
    if forecasts.len() > 0 {
        if is_about(forecasts[0], window) {
            assert(forecasts[0] == forecasts[0]);
        } else {
            let rest = forecasts.skip(1);
            first_forecast_counts(rest, window);
            if forecast_of(rest, window) is Some {
                let found = forecast_of(rest, window)->0;
                let k = choose|k: int|
                    0 <= k < rest.len() && #[trigger] rest[k] == found && is_about(found, window)
                        && (forall|j: int| 0 <= j < k ==> !is_about(#[trigger] rest[j], window));
                assert(forecasts[k + 1] == rest[k]);
                assert forall|j: int| 0 <= j < k + 1 implies !is_about(
                    #[trigger] forecasts[j],
                    window,
                ) by {
                    if j > 0 {
                        assert(rest[j - 1] == forecasts[j]);
                    }
                }
            } else {
                assert forall|k: int| 0 <= k < forecasts.len() implies !is_about(
                    #[trigger] forecasts[k],
                    window,
                ) by {
                    if k > 0 {
                        assert(rest[k - 1] == forecasts[k]);
                    }
                }
            }
        }
    }
}

/// What a forecast says of a window that counts for the whole account.
pub open spec fn is_foreseen(
    forecast: Option<QuotaForecast>,
    window: ProviderQuotaWindow,
    observed: Option<QuotaForecastObservation>,
) -> bool {
    match forecast {
        Some(forecast) => if window.local_usage_attribution
            == QuotaLocalUsageAttribution::AccountWide && is_forecast(forecast) {
            match forecast_of(forecast.windows@, window) {
                Some(found) => observed matches Some(o) && o.used_percent == found.used_percent
                    && o.reset_at_ms == found.reset_at_ms && o.plan_type == forecast.plan_type,
                None => observed is None,
            }
        } else {
            observed is None
        },
        None => observed is None,
    }
}

/// What is foreseen of a window is said by the forecast about just this window, as a percentage of what
/// the whole account may use; where no forecast is about it, nothing is foreseen.
pub proof fn foreseen_of_the_window(
    forecast: QuotaForecast,
    window: ProviderQuotaWindow,
    observed: Option<QuotaForecastObservation>,
)
    requires
        is_foreseen(Some(forecast), window, observed),
    ensures
        observed is Some ==> window.local_usage_attribution is AccountWide && is_forecast(forecast),
        observed matches Some(o) ==> o.plan_type == forecast.plan_type && is_percentage(o.used_percent)
            && exists|k: int|
            0 <= k < forecast.windows@.len() && is_about(#[trigger] forecast.windows@[k], window)
                && forecast.windows@[k].used_percent == o.used_percent
                && forecast.windows@[k].reset_at_ms == o.reset_at_ms,
        window.local_usage_attribution is AccountWide && is_forecast(forecast) && (exists|k: int|
            0 <= k < forecast.windows@.len() && is_about(#[trigger] forecast.windows@[k], window))
            ==> observed is Some,
{
    first_forecast_counts(forecast.windows@, window);
    if window.local_usage_attribution is AccountWide && is_forecast(forecast) {
        observed_is_percentage(forecast, window);
        match forecast_of(forecast.windows@, window) {
            Some(found) => {
                let k = choose|k: int|
                    0 <= k < forecast.windows@.len() && #[trigger] forecast.windows@[k] == found
                        && is_about(found, window);
                assert(is_about(forecast.windows@[k], window));
            },
            None => {},
        }
    }
}

} // verus!
