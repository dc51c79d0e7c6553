//! What one call of a plugin does on the network. The facts are kept apart from what the plugin
//! reports: they say whether a request may be repeated.

use vstd::prelude::*;

use crate::extensions::ExtensionCallScope;
use crate::fault::UpstreamSendState;
use crate::manifest::Stage;
use crate::text::{same_optional, text_of};

verus! {

/// The context that a plugin is called in.
pub struct CallContext {
    pub stage: Stage,
    pub request_id: Option<String>,
    pub attempt_id: Option<String>,
    pub account_id: Option<String>,
    pub credential_revision: Option<u64>,
    pub timeout_ms: u64,
}

/// What one execution or management operation does on the network.
pub struct NetworkScope {
    pub stage: Stage,
    pub account_id: Option<String>,
    pub credential_revision: Option<u64>,
    pub proxy: Option<String>,
    /// The plugins that the request has gone through on whose behalf this is done.
    pub extension_scope: ExtensionCallScope,
    pub active: bool,
    /// Requests that were started and not yet finished.
    pub pending: usize,
    pub sent: bool,
    pub ambiguous: bool,
    /// The execution around this one asked to be told of requests that may have been sent.
    pub reports_effects: bool,
    /// The execution around this one was told.
    pub effects_observed: bool,
}

/// A request that was started. It is settled by [`NetworkScope::finish`] or
/// [`NetworkScope::abandon`].
pub struct HttpAttempt {
    _started: (),
}

/// The stage at which callbacks of a call come in: an attempt prepares an execution.
pub open spec fn callback_stage(stage: Stage) -> Stage {
    if stage == Stage::Attempt {
        Stage::Execution
    } else {
        stage
    }
}

impl NetworkScope {
    /// How far the requests of this scope have gone.
    pub open spec fn state(&self) -> UpstreamSendState {
        if self.sent {
            UpstreamSendState::Sent
        } else if self.ambiguous || self.pending != 0 {
            UpstreamSendState::Ambiguous
        } else {
            UpstreamSendState::NotSent
        }
    }

    /// Everything but the network facts is as in another scope.
    pub open spec fn same_subject(&self, other: &Self) -> bool {
        &&& self.stage == other.stage
        &&& self.account_id == other.account_id
        &&& self.credential_revision == other.credential_revision
        &&& self.proxy == other.proxy
        &&& self.extension_scope == other.extension_scope
        &&& self.reports_effects == other.reports_effects
    }

    /// Everything but whether the scope is active is as in another scope.
    pub open spec fn same_facts(&self, other: &Self) -> bool {
        &&& self.same_subject(other)
        &&& self.pending == other.pending
        &&& self.sent == other.sent
        &&& self.ambiguous == other.ambiguous
        &&& self.effects_observed == other.effects_observed
    }

    /// A scope for a call. That of an attempt starts to count once the execution is activated.
    pub fn new(context: &CallContext, proxy: Option<String>) -> (scope: Self)
        ensures
            scope.is_fresh(*context, proxy),
    {
        let attempt = context.stage == Stage::Attempt;
        NetworkScope {
            stage: if attempt {
                Stage::Execution
            } else {
                context.stage
            },
            account_id: match &context.account_id {
                Some(id) => Some(id.clone()),
                None => None,
            },
            credential_revision: context.credential_revision,
            proxy,
            extension_scope: ExtensionCallScope::default(),
            active: !attempt,
            pending: 0,
            sent: false,
            ambiguous: false,
            reports_effects: false,
            effects_observed: false,
        }
    }

    /// A scope for a call whose callbacks come in at the call's own stage.
    pub fn for_call(context: &CallContext) -> (scope: Self)
        ensures
            scope.stage == context.stage,
            scope.account_id == context.account_id,
            scope.credential_revision == context.credential_revision,
            scope.proxy is None,
            scope.extension_scope@ == Set::<Seq<char>>::empty(),
            scope.active,
            scope.state() == UpstreamSendState::NotSent,
            !scope.reports_effects,
            !scope.effects_observed,
    {
        let mut scope = NetworkScope::new(context, None);
        scope.stage = context.stage;
        scope.activate();
        scope
    }

    pub fn activate(&mut self)
        ensures
            final(self).active,
            final(self).same_facts(old(self)),
    {
        self.active = true;
    }

    pub fn with_execution_effects(self) -> (scope: Self)
        ensures
            scope == (NetworkScope { reports_effects: true, ..self }),
    {
        NetworkScope { reports_effects: true, ..self }
    }

    /// What is done in the scope is done on behalf of a request that has gone through plugins.
    pub fn with_extension_scope(self, extension_scope: ExtensionCallScope) -> (scope: Self)
        ensures
            scope == (NetworkScope { extension_scope, ..self }),
    {
        NetworkScope { extension_scope, ..self }
    }

    /// A callback comes from the call that this scope belongs to, while that call may act.
    pub open spec fn covers(&self, context: &CallContext) -> bool {
        &&& context.stage == self.stage
        &&& text_of(context.account_id) == text_of(self.account_id)
        &&& context.credential_revision == self.credential_revision
        &&& self.active
    }

    pub fn authorizes(&self, context: &CallContext) -> (r: bool)
        ensures
            r == self.covers(context),
    {
        context.stage == self.stage && same_optional(&context.account_id, &self.account_id)
            && same_revision(context.credential_revision, self.credential_revision) && self.active
    }

    /// What the start of a request does.
    pub open spec fn starts(&self, before: &Self) -> bool {
        &&& self.same_subject(before)
        &&& self.active == before.active
        &&& self.pending == before.pending + 1
        &&& self.sent == before.sent
        &&& self.ambiguous == before.ambiguous
        &&& self.effects_observed == before.effects_observed
    }

    /// Starts a request: until it is settled nobody knows how far it went.
    pub fn start_http(&mut self) -> (attempt: HttpAttempt)
        requires
            old(self).pending < usize::MAX,
        ensures
            final(self).starts(old(self)),
            final(self).state() != UpstreamSendState::NotSent,
    {
        self.pending = self.pending + 1;
        HttpAttempt { _started: () }
    }

    /// What a request of the gateway itself does that is started on behalf of this call.
    pub open spec fn nests(&self, before: &Self) -> bool {
        &&& self.same_subject(before)
        &&& self.active == before.active
        &&& self.pending == before.pending
        &&& self.sent == before.sent
        &&& self.ambiguous
        &&& self.effects_observed == before.effects_observed
    }

    /// A request of the gateway itself was started on behalf of this call; how far it goes is not
    /// known here.
    pub fn observe_nested_execution(&mut self)
        ensures
            final(self).nests(old(self)),
    {
        self.ambiguous = true;
    }

    pub fn send_state(&self) -> (state: UpstreamSendState)
        ensures
            state == self.state(),
    {
        if self.sent {
            UpstreamSendState::Sent
        } else if self.ambiguous || self.pending != 0 {
            UpstreamSendState::Ambiguous
        } else {
            UpstreamSendState::NotSent
        }
    }

    /// How a request that went as far as `observed` is settled.
    pub open spec fn settles(&self, before: &Self, observed: UpstreamSendState) -> bool {
        &&& self.same_subject(before)
        &&& self.active == before.active
        &&& self.pending == before.pending - 1
        &&& self.sent == (before.sent || observed == UpstreamSendState::Sent)
        &&& self.ambiguous == (before.ambiguous || observed == UpstreamSendState::Ambiguous)
        &&& self.effects_observed == (before.effects_observed || before.reports_effects && observed
            != UpstreamSendState::NotSent)
    }

    fn record(&mut self, observed: UpstreamSendState)
        requires
            old(self).pending > 0,
        ensures
            final(self).settles(old(self), observed),
    {
        self.pending = self.pending - 1;
        self.sent = self.sent || observed == UpstreamSendState::Sent;
        self.ambiguous = self.ambiguous || observed == UpstreamSendState::Ambiguous;
        if observed != UpstreamSendState::NotSent && self.reports_effects {
            self.effects_observed = true;
        }
    }

    /// Settles a request of which it is known how far it went.
    pub fn finish(&mut self, attempt: HttpAttempt, observed: UpstreamSendState)
        requires
            old(self).pending > 0,
        ensures
            final(self).settles(old(self), observed),
    {
        let HttpAttempt { _started } = attempt;
        self.record(observed);
    }

    /// Settles a request that was given up: it may have been received all the same.
    pub fn abandon(&mut self, attempt: HttpAttempt)
        requires
            old(self).pending > 0,
        ensures
            final(self).settles(old(self), UpstreamSendState::Ambiguous),
    {
        let HttpAttempt { _started } = attempt;
        self.record(UpstreamSendState::Ambiguous);
    }
}

fn same_revision(a: Option<u64>, b: Option<u64>) -> (r: bool)
    ensures
        r == (a == b),
{
    match (a, b) {
        (None, None) => true,
        (Some(a), Some(b)) => a == b,
        _ => false,
    }
}

/// What was once known to have been sent stays known, however later requests end.
pub proof fn sent_stays_sent(before: NetworkScope, after: NetworkScope, observed: UpstreamSendState)
    requires
        after.settles(&before, observed),
    ensures
        before.sent ==> after.state() == UpstreamSendState::Sent,
        observed == UpstreamSendState::Sent ==> after.state() == UpstreamSendState::Sent,
{
}

/// A request that was given up is never taken for one that was not sent.
pub proof fn abandoned_is_not_unsent(before: NetworkScope, after: NetworkScope)
    requires
        after.settles(&before, UpstreamSendState::Ambiguous),
    ensures
        after.state() != UpstreamSendState::NotSent,
        before.reports_effects ==> after.effects_observed,
{
}

/// Nothing counts as unsent unless every request was settled as unsent: a scope that reports
/// nothing sent has nothing pending, and had nothing sent or in doubt before its last request.
pub proof fn unsent_means_all_unsent(
    before: NetworkScope,
    after: NetworkScope,
    observed: UpstreamSendState,
)
    requires
        after.settles(&before, observed),
        after.state() == UpstreamSendState::NotSent,
    ensures
        after.pending == 0,
        observed == UpstreamSendState::NotSent,
        !before.sent && !before.ambiguous,
{
}

/// What happens in a scope.
pub enum ScopeStep {
    /// The call may act from now on.
    Activate,
    /// A request is started.
    Start,
    /// A request is settled that went as far as is said; one that was given up may have been received.
    Settle(UpstreamSendState),
    /// A request of the gateway itself is started.
    Nest,
}

impl ScopeStep {
    /// The step makes one scope into another.
    pub open spec fn leads(&self, before: &NetworkScope, after: &NetworkScope) -> bool {
        match *self {
            ScopeStep::Activate => after.active && after.same_facts(before),
            ScopeStep::Start => after.starts(before),
            ScopeStep::Settle(observed) => after.settles(before, observed),
            ScopeStep::Nest => after.nests(before),
        }
    }
}

/// What happened in a scope, one step after another.
pub open spec fn is_history(scopes: Seq<NetworkScope>, steps: Seq<ScopeStep>) -> bool {
    &&& scopes.len() == steps.len() + 1
    &&& forall|i: int|
        0 <= i < steps.len() ==> (#[trigger] steps[i]).leads(&scopes[i], &scopes[i + 1])
}

/// A request was settled at a place as one that was sent.
pub open spec fn is_sent_at(steps: Seq<ScopeStep>, i: int) -> bool {
    steps[i] == ScopeStep::Settle(UpstreamSendState::Sent)
}

/// Once a request was given up, nothing that happens later makes the scope one in which nothing was
/// sent: it is one in which something was sent where some request was settled so, and else in doubt.
/// Whoever asked to be told of it was told.
pub proof fn abandoned_is_never_unsent(
    scopes: Seq<NetworkScope>,
    steps: Seq<ScopeStep>,
    given_up: int,
    k: int,
)
    requires
        is_history(scopes, steps),
        0 <= given_up < k <= steps.len(),
        steps[given_up] == ScopeStep::Settle(UpstreamSendState::Ambiguous),
    ensures
        scopes[k].ambiguous,
        scopes[k].sent == (scopes[0].sent || exists|i: int| 0 <= i < k && #[trigger] is_sent_at(steps, i)),
        scopes[k].state() == (if scopes[k].sent {
            UpstreamSendState::Sent
        } else {
            UpstreamSendState::Ambiguous
        }),
        scopes[0].reports_effects ==> scopes[k].effects_observed,
    decreases k,
{
    lemma_sent(scopes, steps, k);
    assert(steps[k - 1].leads(&scopes[k - 1], &scopes[k]));
    if k - 1 == given_up {
        lemma_sent(scopes, steps, k - 1);
    } else {
        abandoned_is_never_unsent(scopes, steps, given_up, k - 1);
    }
}

/// Something is known to have been sent exactly where a request was settled so, and who is told of
/// effects stays who it was.
proof fn lemma_sent(scopes: Seq<NetworkScope>, steps: Seq<ScopeStep>, k: int)
    requires
        is_history(scopes, steps),
        0 <= k <= steps.len(),
    ensures
        scopes[k].sent == (scopes[0].sent || exists|i: int| 0 <= i < k && #[trigger] is_sent_at(steps, i)),
        scopes[k].reports_effects == scopes[0].reports_effects,
    decreases k,
{
    if k > 0 {
        lemma_sent(scopes, steps, k - 1);
        assert(steps[k - 1].leads(&scopes[k - 1], &scopes[k]));
        if is_sent_at(steps, k - 1) {
            assert(scopes[k].sent);
        }
    }
}

/// A request that was started and then settled as unsent leaves the scope as it was.
pub proof fn unsent_leaves_no_trace(before: NetworkScope, started: NetworkScope, after: NetworkScope)
    requires
        started.starts(&before),
        after.settles(&started, UpstreamSendState::NotSent),
    ensures
        after.same_facts(&before),
        after.active == before.active,
        after.state() == before.state(),
{
}

/// A call has sent something exactly if one of its requests is known to have been received; it is in
/// doubt if it has not, and one is under way or was given up; and otherwise nothing was sent.
pub proof fn states_by_facts(scope: NetworkScope)
    ensures
        scope.state() is Sent <==> scope.sent,
        scope.state() is NotSent <==> !scope.sent && !scope.ambiguous && scope.pending == 0,
        scope.state() is Ambiguous <==> !scope.sent && (scope.ambiguous || scope.pending > 0),
{
}

/// A callback is let through exactly if the call may act, and the callback is of its stage, its
/// account and its revision.
pub proof fn callbacks_of_the_call(scope: NetworkScope, context: CallContext)
    ensures
        scope.covers(&context) <==> {
            &&& scope.active
            &&& context.stage == scope.stage
            &&& context.account_id is Some <==> scope.account_id is Some
            &&& context.account_id is Some ==> context.account_id->0@ == scope.account_id->0@
            &&& context.credential_revision == scope.credential_revision
        },
        callback_stage(context.stage) is Execution <==> context.stage is Attempt || context.stage
            is Execution,
        !(context.stage is Attempt) ==> callback_stage(context.stage) == context.stage,
{
}

/// Starting a request puts the call in doubt unless something was sent already; settling it takes one
/// off what is under way and adds what is known of it, of which whoever asked is told.
pub proof fn requests_are_counted(
    before: NetworkScope,
    after: NetworkScope,
    observed: UpstreamSendState,
)
    ensures
        after.starts(&before) ==> after.pending == before.pending + 1 && after.sent == before.sent
            && after.ambiguous == before.ambiguous && after.effects_observed
            == before.effects_observed && !(after.state() is NotSent),
        after.settles(&before, observed) ==> after.pending == before.pending - 1 && (after.sent
            <==> before.sent || observed is Sent) && (after.ambiguous <==> before.ambiguous
            || observed is Ambiguous) && (after.effects_observed <==> before.effects_observed || (
        before.reports_effects && !(observed is NotSent))),
        after.nests(&before) ==> after.ambiguous && after.pending == before.pending && after.sent
            == before.sent,
        after.starts(&before) || after.settles(&before, observed) || after.nests(&before)
            ==> after.active == before.active && after.stage == before.stage && after.account_id
            == before.account_id && after.credential_revision == before.credential_revision
            && after.proxy == before.proxy && after.extension_scope == before.extension_scope
            && after.reports_effects == before.reports_effects,
{
}

impl NetworkScope {
    /// The scope of a call that has sent nothing yet. The plugin may act in it at once, unless the call
    /// only prepares an attempt.
    pub open spec fn is_fresh(&self, context: CallContext, proxy: Option<String>) -> bool {
        &&& self.stage == callback_stage(context.stage)
        &&& self.account_id == context.account_id
        &&& self.credential_revision == context.credential_revision
        &&& self.proxy == proxy
        &&& self.extension_scope@ == Set::<Seq<char>>::empty()
        &&& self.active == (context.stage != Stage::Attempt)
        &&& self.pending == 0
        &&& !self.sent
        &&& !self.ambiguous
        &&& !self.reports_effects
        &&& !self.effects_observed
    }
}

/// A call begins with nothing sent. What it may do in the network it does for its own account only, and
/// where it only prepares an attempt it may do nothing yet.
pub proof fn begun_with_nothing_sent(
    scope: NetworkScope,
    context: CallContext,
    callback: CallContext,
    proxy: Option<String>,
)
    requires
        scope.is_fresh(context, proxy),
    ensures
        scope.state() is NotSent,
        scope.proxy == proxy,
        !scope.reports_effects && !scope.effects_observed,
        context.stage is Attempt ==> !scope.covers(&callback),
        !(context.stage is Attempt) && callback == context ==> scope.covers(&callback),
        text_of(callback.account_id) != text_of(context.account_id) ==> !scope.covers(&callback),
        callback.credential_revision != context.credential_revision ==> !scope.covers(&callback),
{
    states_by_facts(scope);
    callbacks_of_the_call(scope, callback);
    callbacks_of_the_call(scope, context);
}

} // verus!
