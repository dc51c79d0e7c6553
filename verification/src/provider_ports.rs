//! What a provider keeps in the stores of the gateway, and the policies that it reads from them.

use vstd::prelude::*;

use crate::json::Json;
use crate::table::{entry, find};
use crate::text::{all_distinct, same, texts};
use vstd::string::*;

verus! {

/// Why a store refused.
#[derive(Debug, Clone, Copy, PartialEq, Eq, Structural)]
pub enum ProviderStoreErrorKind {
    InvalidData,
    Unavailable,
    Conflict,
}

/// A store refused.
#[derive(Debug, Clone, Copy, PartialEq, Eq, Structural)]
pub struct ProviderStoreError {
    pub kind: ProviderStoreErrorKind,
}

impl ProviderStoreError {
    pub fn kind(&self) -> (kind: ProviderStoreErrorKind)
        ensures
            kind == self.kind,
    {
        self.kind
    }
}

/// What was to be stored is not valid.
pub open spec fn invalid_data() -> ProviderStoreError {
    ProviderStoreError { kind: ProviderStoreErrorKind::InvalidData }
}

fn refuse() -> (error: ProviderStoreError)
    ensures
        error == invalid_data(),
{
    ProviderStoreError { kind: ProviderStoreErrorKind::InvalidData }
}

/// What a pending login is bound to. The value itself is never shown.
pub struct OAuthPendingBinding {
    value: String,
}

impl View for OAuthPendingBinding {
    type V = Seq<char>;

    closed spec fn view(&self) -> Seq<char> {
        self.value@
    }
}

impl OAuthPendingBinding {
    /// A binding holds something.
    #[verifier::type_invariant]
    closed spec fn well_formed(&self) -> bool {
        self.value@.len() > 0
    }

    pub fn try_new(value: &str) -> (result: Result<Self, ProviderStoreError>)
        ensures
            match result {
                Ok(binding) => value@.len() > 0 && binding@ == value@,
                Err(error) => value@.len() == 0 && error == invalid_data(),
            },
    {
        if value.is_empty() {
            return Err(refuse());
        }
        Ok(OAuthPendingBinding { value: value.to_owned() })
    }

    /// How the binding is shown.
    pub fn debug_text(&self) -> (text: &'static str)
        ensures
            text@ == "OAuthPendingBinding([REDACTED])"@,
    {
        "OAuthPendingBinding([REDACTED])"
    }
}


/// The key by which the requests of one conversation find the same account. It is never shown.
pub struct ProviderSessionAffinityKey {
    value: String,
}

impl View for ProviderSessionAffinityKey {
    type V = Seq<char>;

    closed spec fn view(&self) -> Seq<char> {
        self.value@
    }
}

impl ProviderSessionAffinityKey {
    /// A key holds something.
    #[verifier::type_invariant]
    closed spec fn well_formed(&self) -> bool {
        self.value@.len() > 0
    }

    pub fn try_new(value: &str) -> (result: Result<Self, ProviderStoreError>)
        ensures
            match result {
                Ok(key) => value@.len() > 0 && key@ == value@,
                Err(error) => value@.len() == 0 && error == invalid_data(),
            },
    {
        if value.is_empty() {
            return Err(refuse());
        }
        Ok(ProviderSessionAffinityKey { value: value.to_owned() })
    }

    /// How the key is shown.
    pub fn debug_text(&self) -> (text: &'static str)
        ensures
            text@ == "ProviderSessionAffinityKey([OPAQUE])"@,
    {
        "ProviderSessionAffinityKey([OPAQUE])"
    }
}

/// The longest time that a login may be pending, in nanoseconds.
pub const MAX_PENDING_NANOS: u128 = 1_800_000_000_000;

/// A login that waits for the person who started it.
pub struct NewOAuthPendingFlow {
    pub provider: String,
    pub flow: OAuthPendingBinding,
    pub owner: OAuthPendingBinding,
    pub ttl_nanos: u128,
    pub payload: Vec<(String, Json)>,
}

/// A time for which a login may be pending.
pub open spec fn is_pending_time(nanos: u128) -> bool {
    0 < nanos <= MAX_PENDING_NANOS
}

impl NewOAuthPendingFlow {
    pub fn try_new(
        provider: String,
        flow: OAuthPendingBinding,
        owner: OAuthPendingBinding,
        ttl_nanos: u128,
        payload: Vec<(String, Json)>,
    ) -> (result: Result<Self, ProviderStoreError>)
        ensures
            match result {
                Ok(pending) => is_pending_time(ttl_nanos) && pending == (NewOAuthPendingFlow {
                    provider,
                    flow,
                    owner,
                    ttl_nanos,
                    payload,
                }),
                Err(error) => !is_pending_time(ttl_nanos) && error == invalid_data(),
            },
    {
        if ttl_nanos == 0 || ttl_nanos > MAX_PENDING_NANOS {
            return Err(refuse());
        }
        Ok(NewOAuthPendingFlow { provider, flow, owner, ttl_nanos, payload })
    }
}

/// When access tokens are refreshed, and how many at a time.
#[derive(Debug, Clone, Copy, PartialEq, Eq, Structural)]
pub struct ProviderRefreshPolicy {
    /// In nanoseconds.
    pub margin: u128,
    pub concurrency: u32,
}

/// Whether one point in time comes before another, or after it by at most a margin. All are in
/// nanoseconds.
fn within_margin(later: i128, earlier: i128, margin: u128) -> (r: bool)
    ensures
        r == (later <= earlier + margin),
{
    if later <= earlier {
        return true;
    }
    if (later >= 0) == (earlier >= 0) {
        (later - earlier) as u128 <= margin
    } else {
        let above = later as u128;
        let below = (-(earlier + 1)) as u128;
        above + below + 1 <= margin
    }
}

impl ProviderRefreshPolicy {
    pub fn try_new(margin: u128, concurrency: u32) -> (result: Result<Self, ProviderStoreError>)
        ensures
            result == (if margin > 0 && concurrency > 0 {
                Ok::<ProviderRefreshPolicy, ProviderStoreError>(
                    ProviderRefreshPolicy { margin, concurrency },
                )
            } else {
                Err(invalid_data())
            }),
    {
        if margin == 0 || concurrency == 0 {
            return Err(refuse());
        }
        Ok(ProviderRefreshPolicy { margin, concurrency })
    }

    /// A token that ends within the margin, or has ended, is due.
    pub open spec fn is_due(&self, expires_at: i128, observed_at: i128) -> bool {
        expires_at <= observed_at + self.margin
    }

    /// Whether a token is due. Points in time are in nanoseconds since the epoch.
    pub fn is_refresh_due(&self, expires_at: i128, observed_at: i128) -> (due: bool)
        ensures
            due == self.is_due(expires_at, observed_at),
    {
        within_margin(expires_at, observed_at, self.margin)
    }

    pub fn concurrency(&self) -> (n: u32)
        ensures
            n == self.concurrency,
    {
        self.concurrency
    }
}

/// Once a token is due it stays due, and a token that has ended is always due.
pub proof fn due_stays_due(policy: ProviderRefreshPolicy, expires_at: i128, now: i128, later: i128)
    requires
        now <= later,
    ensures
        policy.is_due(expires_at, now) ==> policy.is_due(expires_at, later),
        expires_at <= now ==> policy.is_due(expires_at, now),
{
}

/// What is known of an account's present use.
#[derive(Debug, Clone, Copy, PartialEq, Eq, Structural)]
pub struct AccountRuntimeSignals {
    pub in_flight: u32,
    pub last_started_at_ms: Option<i64>,
    pub quota_reset_at_ms: Option<i64>,
    pub quota_remaining_rank: Option<u64>,
    /// Until when the account is to be left alone.
    pub cooldown_until_ms: Option<i64>,
    pub failure_rate_basis_points: Option<u32>,
    pub first_output_latency_ms: Option<u64>,
}

/// What is known of the present use of several accounts, and whose turn it is.
pub struct ProviderSchedulingState {
    pub signals: Vec<(String, AccountRuntimeSignals)>,
    pub round_robin_cursor: u64,
}

impl ProviderSchedulingState {
    pub fn new(signals: Vec<(String, AccountRuntimeSignals)>, round_robin_cursor: u64) -> (state:
        Self)
        ensures
            state.signals == signals,
            state.round_robin_cursor == round_robin_cursor,
    {
        ProviderSchedulingState { signals, round_robin_cursor }
    }

    /// What is known of an account.
    pub fn signals(&self, account_id: &str) -> (signals: Option<AccountRuntimeSignals>)
        ensures
            signals == entry(self.signals@, account_id@),
    {
        match find(&self.signals, account_id) {
            Some(k) => Some(self.signals[k].1),
            None => None,
        }
    }

    pub fn round_robin_cursor(&self) -> (cursor: u64)
        ensures
            cursor == self.round_robin_cursor,
    {
        self.round_robin_cursor
    }
}

/// The number of a version of a credential, counted from one.
#[derive(Debug, Clone, Copy, PartialEq, Eq, Structural)]
pub struct CredentialRevision {
    pub value: u64,
}

impl CredentialRevision {
    pub fn new(value: u64) -> (result: Result<Self, ProviderStoreError>)
        ensures
            result == (if value > 0 {
                Ok::<CredentialRevision, ProviderStoreError>(CredentialRevision { value })
            } else {
                Err(invalid_data())
            }),
    {
        if value == 0 {
            return Err(refuse());
        }
        Ok(CredentialRevision { value })
    }

    pub fn get(&self) -> (value: u64)
        ensures
            value == self.value,
    {
        self.value
    }
}

/// The least number of answers by a lesser model that take an account out of use.
pub const MIN_DOWNGRADE_THRESHOLD: u32 = 1;

/// The shortest time in which such answers are counted, in seconds.
pub const MIN_DOWNGRADE_WINDOW_SECONDS: u64 = 60;

/// The shortest time for which an account is taken out of use, in seconds.
pub const MIN_DOWNGRADE_FREEZE_SECONDS: u64 = 300;

/// How an answer compares with what was asked for.
#[derive(Debug, Clone, Copy, PartialEq, Eq, Structural)]
pub enum ModelDowngradeVerdict {
    /// The model that was asked for answered, or a better one.
    Healthy,
    /// A lesser model answered.
    Downgraded,
    /// The two cannot be compared.
    Unknown,
}

/// When accounts that answer with lesser models than were asked for are taken out of use.
pub struct ModelDowngradePolicy {
    pub enabled: bool,
    pub threshold: u32,
    pub window_seconds: u64,
    pub freeze_seconds: u64,
    /// The models, the best first.
    pub ladder: Vec<String>,
    pub probe_model: Option<String>,
}

/// The name of a model, without what stands before it in the name of an endpoint.
pub open spec fn bare_model(model: Seq<char>) -> Seq<char> {
    let prefix = "responses/"@;
    if prefix.len() <= model.len() && model.take(prefix.len() as int) == prefix {
        model.skip(prefix.len() as int)
    } else {
        model
    }
}

/// The place of a model among others, the best first.
pub open spec fn tier(ladder: Seq<String>, model: Seq<char>) -> Option<int>
    decreases ladder.len(),
{
    if ladder.len() == 0 {
        None
    } else if tier(ladder.drop_last(), model) is Some {
        tier(ladder.drop_last(), model)
    } else if ladder.last()@ == model {
        Some(ladder.len() - 1)
    } else {
        None
    }
}

/// A policy that can be followed.
pub open spec fn is_downgrade_policy(
    enabled: bool,
    threshold: u32,
    window_seconds: u64,
    freeze_seconds: u64,
    ladder: Seq<String>,
) -> bool {
    &&& enabled ==> ladder.len() > 0
    &&& texts(ladder).no_duplicates()
    &&& threshold >= MIN_DOWNGRADE_THRESHOLD
    &&& window_seconds >= MIN_DOWNGRADE_WINDOW_SECONDS
    &&& freeze_seconds >= MIN_DOWNGRADE_FREEZE_SECONDS
}

/// The place of a model, read from its name as it was asked for or answered.
fn place_of(ladder: &Vec<String>, model: &str) -> (place: Option<usize>)
    ensures
        match place {
            Some(k) => tier(ladder@, bare_model(model@)) == Some(k as int),
            None => tier(ladder@, bare_model(model@)) is None,
        },
{
    proof {
        reveal_strlit("responses/");
    }
    let total = model.unicode_len();
    let bare = if total >= 10 && same(model.substring_char(0, 10), "responses/") {
        model.substring_char(10, total)
    } else {
        model
    };
    proof {
        if total >= 10 {
            assert(model@.take(10) =~= model@.subrange(0, 10));
            assert(model@.skip(10) =~= model@.subrange(10, total as int));
        }
        assert(bare@ == bare_model(model@));
        assert(ladder@.take(0) =~= Seq::<String>::empty());
    }
    for i in 0..ladder.len()
        invariant
            bare@ == bare_model(model@),
            tier(ladder@.take(i as int), bare@) is None,
    {
        proof {
            assert(ladder@.take(i + 1).drop_last() =~= ladder@.take(i as int));
            assert(ladder@.take(i + 1).last() == ladder@[i as int]);
        }
        if same(ladder[i].as_str(), bare) {
            proof {
                lemma_first_tier(ladder@, bare@, i + 1);
            }
            return Some(i);
        }
    }
    assert(ladder@.take(ladder@.len() as int) =~= ladder@);
    None
}

/// The first place of a model is its place, whatever comes after.
proof fn lemma_first_tier(ladder: Seq<String>, model: Seq<char>, n: int)
    requires
        0 <= n <= ladder.len(),
        tier(ladder.take(n), model) is Some,
    ensures
        tier(ladder, model) == tier(ladder.take(n), model),
    decreases ladder.len() - n,
{
    if n == ladder.len() {
        assert(ladder.take(n) =~= ladder);
    } else {
        assert(ladder.take(n + 1).drop_last() =~= ladder.take(n));
        lemma_first_tier(ladder, model, n + 1);
    }
}

impl ModelDowngradePolicy {
    pub fn try_new(
        enabled: bool,
        threshold: u32,
        window_seconds: u64,
        freeze_seconds: u64,
        ladder: Vec<String>,
        probe_model: Option<String>,
    ) -> (result: Result<Self, ProviderStoreError>)
        ensures
            match result {
                Ok(policy) => is_downgrade_policy(
                    enabled,
                    threshold,
                    window_seconds,
                    freeze_seconds,
                    ladder@,
                ) && policy == (ModelDowngradePolicy {
                    enabled,
                    threshold,
                    window_seconds,
                    freeze_seconds,
                    ladder,
                    probe_model,
                }),
                Err(error) => !is_downgrade_policy(
                    enabled,
                    threshold,
                    window_seconds,
                    freeze_seconds,
                    ladder@,
                ) && error == invalid_data(),
            },
    {
        if (enabled && ladder.len() == 0) || !all_distinct(&ladder) || threshold
            < MIN_DOWNGRADE_THRESHOLD || window_seconds < MIN_DOWNGRADE_WINDOW_SECONDS
            || freeze_seconds < MIN_DOWNGRADE_FREEZE_SECONDS {
            return Err(refuse());
        }
        Ok(
            ModelDowngradePolicy {
                enabled,
                threshold,
                window_seconds,
                freeze_seconds,
                ladder,
                probe_model,
            },
        )
    }

    /// A policy that does nothing.
    pub fn disabled() -> (policy: Self)
        ensures
            !policy.enabled,
            policy.threshold == MIN_DOWNGRADE_THRESHOLD,
            policy.window_seconds == MIN_DOWNGRADE_WINDOW_SECONDS,
            policy.freeze_seconds == MIN_DOWNGRADE_FREEZE_SECONDS,
            policy.ladder@.len() == 0,
            policy.probe_model is None,
    {
        ModelDowngradePolicy {
            enabled: false,
            threshold: MIN_DOWNGRADE_THRESHOLD,
            window_seconds: MIN_DOWNGRADE_WINDOW_SECONDS,
            freeze_seconds: MIN_DOWNGRADE_FREEZE_SECONDS,
            ladder: Vec::new(),
            probe_model: None,
        }
    }

    pub fn enabled(&self) -> (r: bool)
        ensures
            r == self.enabled,
    {
        self.enabled
    }

    /// The model that an account is tried with: the one that was set, or else the best.
    pub fn probe_model(&self) -> (model: Option<&str>)
        ensures
            self.is_probe(match model {
                Some(m) => Some(m@),
                None => None,
            }),
    {
        if !self.enabled {
            return None;
        }
        match &self.probe_model {
            Some(set) => Some(set.as_str()),
            None => if self.ladder.len() > 0 {
                Some(self.ladder[0].as_str())
            } else {
                None
            },
        }
    }

    /// How an answer by one model compares with what was asked of another.
    pub open spec fn verdict(&self, requested: Seq<char>, returned: Seq<char>) ->
        ModelDowngradeVerdict {
        match (tier(self.ladder@, bare_model(requested)), tier(self.ladder@, bare_model(returned))) {
            (Some(asked), Some(answered)) if self.enabled => if answered > asked {
                ModelDowngradeVerdict::Downgraded
            } else {
                ModelDowngradeVerdict::Healthy
            },
            _ => ModelDowngradeVerdict::Unknown,
        }
    }

    pub fn classify(&self, requested: &str, returned: &str) -> (verdict: ModelDowngradeVerdict)
        ensures
            verdict == self.verdict(requested@, returned@),
    {
        if !self.enabled {
            return ModelDowngradeVerdict::Unknown;
        }
        match (place_of(&self.ladder, requested), place_of(&self.ladder, returned)) {
            (Some(asked), Some(answered)) => if answered > asked {
                ModelDowngradeVerdict::Downgraded
            } else {
                ModelDowngradeVerdict::Healthy
            },
            _ => ModelDowngradeVerdict::Unknown,
        }
    }
}

/// The model that was asked for is never taken for a lesser one, and of two different models that
/// can be compared exactly one is lesser.
pub proof fn downgrade_is_strict(policy: ModelDowngradePolicy, a: Seq<char>, b: Seq<char>)
    ensures
        policy.verdict(a, a) != ModelDowngradeVerdict::Downgraded,
        policy.verdict(a, b) == ModelDowngradeVerdict::Downgraded ==> policy.verdict(b, a)
            == ModelDowngradeVerdict::Healthy,
        policy.verdict(a, b) == ModelDowngradeVerdict::Unknown <==> policy.verdict(b, a)
            == ModelDowngradeVerdict::Unknown,
{
}

/// What stands before the name of a model in the name of an endpoint does not count, and nothing else
/// is taken away.
pub proof fn bare_models(model: Seq<char>)
    ensures
        bare_model("responses/"@ + model) == model,
        !(exists|rest: Seq<char>| model == #[trigger] ("responses/"@ + rest)) ==> bare_model(model)
            == model,
{
    let prefix = "responses/"@;
    assert((prefix + model).take(prefix.len() as int) =~= prefix);
    assert((prefix + model).skip(prefix.len() as int) =~= model);
    if prefix.len() <= model.len() && model.take(prefix.len() as int) == prefix {
        let rest = model.skip(prefix.len() as int);
        assert(model =~= prefix + rest);
    }
}

/// The place of a model is the first at which it is named, and it has one exactly if it is named.
pub proof fn places_of_models(ladder: Seq<String>, model: Seq<char>)
    ensures
        match tier(ladder, model) {
            Some(place) => 0 <= place < ladder.len() && ladder[place]@ == model && forall|k: int|
                0 <= k < place ==> (#[trigger] ladder[k])@ != model,
            None => forall|k: int| 0 <= k < ladder.len() ==> (#[trigger] ladder[k])@ != model,
        },
    decreases ladder.len(),
{
    if ladder.len() > 0 {
        let front = ladder.drop_last();
        places_of_models(front, model);
        assert forall|k: int| 0 <= k < front.len() implies front[k] == #[trigger] ladder[k] by {}
    }
}

/// A lesser model answered exactly if both models are known, the policy is followed, and the one that
/// answered is named after the one that was asked for; where one is unknown, or the policy is not
/// followed, nothing can be said.
pub proof fn lesser_models(policy: ModelDowngradePolicy, asked: int, answered: int)
    requires
        0 <= asked < policy.ladder@.len(),
        0 <= answered < policy.ladder@.len(),
        texts(policy.ladder@).no_duplicates(),
        bare_model(policy.ladder@[asked]@) == policy.ladder@[asked]@,
        bare_model(policy.ladder@[answered]@) == policy.ladder@[answered]@,
    ensures
        ({
            let verdict = policy.verdict(policy.ladder@[asked]@, policy.ladder@[answered]@);
            &&& !policy.enabled ==> verdict is Unknown
            &&& policy.enabled ==> (verdict is Downgraded <==> answered > asked)
            &&& policy.enabled ==> (verdict is Healthy <==> answered <= asked)
        }),
{
    let ladder = policy.ladder@;
    places_of_models(ladder, ladder[asked]@);
    places_of_models(ladder, ladder[answered]@);
    let a = tier(ladder, ladder[asked]@)->0;
    let b = tier(ladder, ladder[answered]@)->0;
    assert(texts(ladder)[a] == texts(ladder)[asked]);
    assert(texts(ladder)[b] == texts(ladder)[answered]);
}

/// Of a model that is not named nothing can be said.
pub proof fn unknown_models(policy: ModelDowngradePolicy, requested: Seq<char>, returned: Seq<char>)
    ensures
        (forall|k: int| 0 <= k < policy.ladder@.len() ==> (#[trigger] policy.ladder@[k])@
            != bare_model(requested)) ==> policy.verdict(requested, returned) is Unknown,
        (forall|k: int| 0 <= k < policy.ladder@.len() ==> (#[trigger] policy.ladder@[k])@
            != bare_model(returned)) ==> policy.verdict(requested, returned) is Unknown,
{
    places_of_models(policy.ladder@, bare_model(requested));
    places_of_models(policy.ladder@, bare_model(returned));
}

/// A policy can be followed exactly if it names models where it is to be followed, each once, counts
/// at least one answer over at least a minute, and takes accounts out of use for at least five
/// minutes.
pub proof fn policies_in_order(
    enabled: bool,
    threshold: u32,
    window_seconds: u64,
    freeze_seconds: u64,
    ladder: Seq<String>,
)
    ensures
        is_downgrade_policy(enabled, threshold, window_seconds, freeze_seconds, ladder) <==> {
            &&& enabled ==> ladder.len() > 0
            &&& texts(ladder).no_duplicates()
            &&& threshold >= 1 && window_seconds >= 60 && freeze_seconds >= 300
        },
{
}

/// A login may be pending for some time, and for half an hour at most.
pub proof fn pending_times(nanos: u128)
    ensures
        is_pending_time(nanos) <==> nanos > 0 && nanos <= 30 * 60 * 1_000_000_000,
{
}

/// A token is due exactly if what is left of its time is at most the margin.
pub proof fn due_within_the_margin(policy: ProviderRefreshPolicy, expires_at: i128, observed_at: i128)
    ensures
        policy.is_due(expires_at, observed_at) <==> expires_at - observed_at <= policy.margin,
        invalid_data().kind is InvalidData,
{
}

impl ModelDowngradePolicy {
    /// The model that is asked to see whether answers come from the model that they should.
    pub open spec fn is_probe(&self, model: Option<Seq<char>>) -> bool {
        &&& !self.enabled ==> model is None
        &&& self.enabled ==> match self.probe_model {
            Some(set) => model matches Some(m) && m == set@,
            None => if self.ladder@.len() > 0 {
                model matches Some(m) && m == self.ladder@[0]@
            } else {
                model is None
            },
        }
    }
}

/// A policy that is enabled always has a model to ask: the one that is set, else the best one, from
/// which no answer counts as better. One that is disabled has none.
pub proof fn probed_with_the_best(policy: ModelDowngradePolicy, model: Option<Seq<char>>)
    requires
        policy.is_probe(model),
    ensures
        model is Some ==> policy.enabled,
        policy.enabled && policy.ladder@.len() > 0 ==> model is Some,
        policy.enabled && policy.probe_model is Some ==> model == Some(policy.probe_model->0@),
        policy.enabled && policy.probe_model is None && policy.ladder@.len() > 0 ==> (model
            matches Some(m) && tier(policy.ladder@, m) == Some(0int)),
{
    if policy.ladder@.len() > 0 {
        places_of_models(policy.ladder@, policy.ladder@[0]@);
    }
}

} // verus!
