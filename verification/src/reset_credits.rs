//! Credits by which an account's quota can be reset.

use vstd::prelude::*;

use crate::fault::{
    admin, invalid, unsupported, ProviderAdminError, ProviderAdminErrorKind,
};
use crate::identifier::{drawn_at_random, is_random_uuid, uuid_text, write_uuid};
use crate::manifest::{has_account_operation, AccountOperation};
use crate::moment::{is_optional_moment, is_timestamp};
use crate::text::{
    blank, byte_len, contains_control, has_control, is_blank, length_in_bytes, same, text_of,
};

verus! {

/// The most credits of an account.
pub const MAX_CREDITS: usize = 4096;

/// The most bytes of a text that is said of a credit.
pub const MAX_TEXT_BYTES: usize = 1024;

/// A text that can be shown: bounded and without control codes.
pub open spec fn is_short_text(text: Seq<char>) -> bool {
    byte_len(text) <= MAX_TEXT_BYTES && !has_control(text)
}

/// A text that can be shown and says something.
pub open spec fn is_name(text: Seq<char>) -> bool {
    is_short_text(text) && !is_blank(text)
}

/// The same of a text that may be missing, and may say nothing.
pub open spec fn is_optional_short_text(text: Option<String>) -> bool {
    text matches Some(t) ==> is_short_text(t@)
}

fn short_text(text: &str) -> (r: bool)
    ensures
        r == is_short_text(text@),
{
    length_in_bytes(text) <= MAX_TEXT_BYTES && !contains_control(text)
}

fn name(text: &str) -> (r: bool)
    ensures
        r == is_name(text@),
{
    short_text(text) && !blank(text)
}

fn optional_short_text(text: &Option<String>) -> (r: bool)
    ensures
        r == is_optional_short_text(*text),
{
    match text {
        Some(text) => short_text(text.as_str()),
        None => true,
    }
}

/// What a plugin answered.
pub enum Reply<T> {
    Completed(T),
    CredentialRefreshRequired,
    Rejected,
}

/// A credit, as a plugin reports it and as it is shown.
pub struct ProviderResetCredit {
    pub id: String,
    pub status: Option<String>,
    pub title: Option<String>,
    pub expires_at_ms: Option<i64>,
    pub reset_type: Option<String>,
}

/// A credit that can be shown.
pub open spec fn is_credit(credit: ProviderResetCredit) -> bool {
    &&& is_name(credit.id@)
    &&& is_optional_short_text(credit.status)
    &&& is_optional_short_text(credit.title)
    &&& is_optional_short_text(credit.reset_type)
    &&& is_optional_moment(credit.expires_at_ms)
}

fn credit(value: &ProviderResetCredit) -> (r: bool)
    ensures
        r == is_credit(*value),
{
    let expires = match value.expires_at_ms {
        Some(ms) => is_timestamp(ms),
        None => true,
    };
    name(value.id.as_str()) && optional_short_text(&value.status) && optional_short_text(
        &value.title,
    ) && optional_short_text(&value.reset_type) && expires
}

/// The credits of an account.
pub struct ProviderResetCredits {
    pub available_count: u64,
    pub credits: Vec<ProviderResetCredit>,
}

/// Credits that can be shown and told apart.
pub open spec fn are_credits(credits: Seq<ProviderResetCredit>) -> bool {
    &&& credits.len() <= MAX_CREDITS
    &&& forall|i: int| 0 <= i < credits.len() ==> is_credit(#[trigger] credits[i])
    &&& forall|i: int, j: int|
        0 <= i < j < credits.len() ==> (#[trigger] credits[i]).id@ != (#[trigger] credits[j]).id@
}

/// An operation on an account may be asked for.
pub fn ensure_operation(
    operations: &Vec<AccountOperation>,
    operation: AccountOperation,
) -> (result: Result<(), ProviderAdminError>)
    ensures
        result == (if operations@.contains(operation) {
            Ok::<(), ProviderAdminError>(())
        } else {
            Err(admin(ProviderAdminErrorKind::Unsupported))
        }),
{
    if has_account_operation(operations, operation) {
        Ok(())
    } else {
        Err(unsupported())
    }
}

/// What was answered, where the operation was carried out.
pub open spec fn completion<T>(reply: Reply<T>) -> Result<T, ProviderAdminError> {
    match reply {
        Reply::Completed(result) => Ok(result),
        Reply::CredentialRefreshRequired => Err(
            admin(ProviderAdminErrorKind::CredentialRefreshRequired),
        ),
        Reply::Rejected => Err(admin(ProviderAdminErrorKind::BadGateway)),
    }
}

pub fn completed<T>(reply: Reply<T>) -> (result: Result<T, ProviderAdminError>)
    ensures
        result == completion(reply),
{
    match reply {
        Reply::Completed(result) => Ok(result),
        Reply::CredentialRefreshRequired => Err(
            ProviderAdminError::new(ProviderAdminErrorKind::CredentialRefreshRequired),
        ),
        Reply::Rejected => Err(bad_result()),
    }
}

fn bad_result() -> (error: ProviderAdminError)
    ensures
        error == admin(ProviderAdminErrorKind::BadGateway),
{
    ProviderAdminError::new(ProviderAdminErrorKind::BadGateway)
}

fn ambiguous() -> (error: ProviderAdminError)
    ensures
        error == admin(ProviderAdminErrorKind::Ambiguous),
{
    ProviderAdminError::new(ProviderAdminErrorKind::Ambiguous)
}

fn valid_credits(credits: &Vec<ProviderResetCredit>) -> (r: bool)
    ensures
        r == are_credits(credits@),
{
    if credits.len() > MAX_CREDITS {
        return false;
    }
    for i in 0..credits.len()
        invariant
            forall|j: int| 0 <= j < i ==> is_credit(#[trigger] credits@[j]),
            forall|j: int, k: int|
                0 <= j < k < i ==> (#[trigger] credits@[j]).id@ != (#[trigger] credits@[k]).id@,
    {
        if !credit(&credits[i]) {
            return false;
        }
        for j in 0..i
            invariant
                i < credits@.len(),
                forall|k: int|
                    0 <= k < j ==> (#[trigger] credits@[k]).id@ != credits@[i as int].id@,
        {
            if same(credits[j].id.as_str(), credits[i].id.as_str()) {
                return false;
            }
        }
    }
    true
}

/// Takes the credits that a plugin answered.
pub fn query_reset_credits(reply: Reply<ProviderResetCredits>) -> (result: Result<
    ProviderResetCredits,
    ProviderAdminError,
>)
    ensures
        is_query_answer(reply, result),
{
    let answered = match completed(reply) {
        Ok(answered) => answered,
        Err(error) => return Err(error),
    };
    if !valid_credits(&answered.credits) {
        return Err(bad_result());
    }
    Ok(answered)
}

/// A credit that is to be consumed: which one, where a particular one is wanted, and the number by
/// which the request is known should it be repeated.
pub struct ConsumeResetCredit {
    pub credit_id: Option<String>,
    pub redeem_request_id: [u8; 16],
}

/// A credit may be consumed: the request's number was drawn at random, so that no two requests have
/// the same.
pub open spec fn is_redeemable(command: ConsumeResetCredit) -> bool {
    &&& is_random_uuid(command.redeem_request_id@)
    &&& command.credit_id matches Some(id) ==> is_name(id@)
}

/// What is wrong with a request to consume a credit.
pub open spec fn redeem_fault(
    command: ConsumeResetCredit,
    operations: Seq<AccountOperation>,
) -> Option<ProviderAdminErrorKind> {
    if !operations.contains(AccountOperation::ConsumeResetCredit) {
        Some(ProviderAdminErrorKind::Unsupported)
    } else if !is_redeemable(command) {
        Some(ProviderAdminErrorKind::Invalid)
    } else {
        None
    }
}

/// What a plugin is asked to consume.
pub struct ConsumeRequest {
    pub credit_id: Option<String>,
    pub redeem_request_id: String,
}

/// What a plugin is asked to consume.
pub fn prepare_redeem(command: &ConsumeResetCredit, operations: &Vec<AccountOperation>) -> (result:
    Result<ConsumeRequest, ProviderAdminError>)
    ensures
        match redeem_fault(*command, operations@) {
            Some(fault) => result matches Err(error) && error == admin(fault),
            None => result matches Ok(request) && text_of(request.credit_id) == text_of(
                command.credit_id,
            ) && request.redeem_request_id@ == uuid_text(command.redeem_request_id@),
        },
{
    match ensure_operation(operations, AccountOperation::ConsumeResetCredit) {
        Ok(()) => {},
        Err(error) => return Err(error),
    }
    let named = match &command.credit_id {
        Some(id) => name(id.as_str()),
        None => true,
    };
    if !drawn_at_random(command.redeem_request_id) || !named {
        return Err(invalid());
    }
    Ok(
        ConsumeRequest {
            credit_id: match &command.credit_id {
                Some(id) => Some(id.clone()),
                None => None,
            },
            redeem_request_id: write_uuid(command.redeem_request_id),
        },
    )
}

/// What came of consuming a credit.
pub struct ProviderResetCreditResult {
    pub code: String,
    pub credit: Option<ProviderResetCredit>,
}

/// What came of consuming a credit can be told: it has a code, and the credit is the one that was
/// wanted.
pub open spec fn is_redeemed(
    credit_id: Option<String>,
    result: ProviderResetCreditResult,
) -> bool {
    &&& is_name(result.code@)
    &&& result.credit matches Some(credit) ==> is_credit(credit)
    &&& credit_id matches Some(wanted) ==> (result.credit matches Some(credit) ==> wanted@
        == credit.id@)
}

/// Takes what a plugin answered to a request to consume a credit. From here on nobody can say that
/// nothing was consumed: whatever cannot be used is in doubt. `identity_kept` says that the account
/// is still the same.
pub fn redeem_reset_credit(
    credit_id: &Option<String>,
    reply: Reply<ProviderResetCreditResult>,
    identity_kept: bool,
) -> (result: Result<ProviderResetCreditResult, ProviderAdminError>)
    ensures
        is_redeem_answer(*credit_id, reply, identity_kept, result),
{
    if !identity_kept {
        return Err(ambiguous());
    }
    let answered = match completed(reply) {
        Ok(answered) => answered,
        Err(error) => return Err(error),
    };
    if !name(answered.code.as_str()) {
        return Err(ambiguous());
    }
    match &answered.credit {
        Some(returned) => {
            if !credit(returned) {
                return Err(ambiguous());
            }
            match credit_id {
                Some(wanted) => if !same(wanted.as_str(), returned.id.as_str()) {
                    return Err(ambiguous());
                },
                None => {},
            }
        },
        None => {},
    }
    Ok(answered)
}

/// A credit can be shown exactly if it has a name, every text of it has at most 1024 bytes and no
/// control code, and it runs out at a point of the calendar, if at all.
pub proof fn credits_in_order(credit: ProviderResetCredit)
    ensures
        is_credit(credit) <==> {
            &&& byte_len(credit.id@) <= 1024 && !has_control(credit.id@) && !is_blank(credit.id@)
            &&& credit.status is Some ==> byte_len(credit.status->0@) <= 1024 && !has_control(
                credit.status->0@,
            )
            &&& credit.title is Some ==> byte_len(credit.title->0@) <= 1024 && !has_control(
                credit.title->0@,
            )
            &&& credit.reset_type is Some ==> byte_len(credit.reset_type->0@) <= 1024
                && !has_control(credit.reset_type->0@)
            &&& is_optional_moment(credit.expires_at_ms)
        },
{
}

/// Credits can be shown exactly if there are at most 4096, each can be, and no two have the same name.
pub proof fn credits_are_told_apart(credits: Seq<ProviderResetCredit>)
    ensures
        are_credits(credits) <==> credits.len() <= 4096 && (forall|i: int|
            0 <= i < credits.len() ==> is_credit(#[trigger] credits[i])) && (forall|i: int, j: int|
            0 <= i < credits.len() && 0 <= j < credits.len() && (#[trigger] credits[i]).id@ == (
            #[trigger] credits[j]).id@ ==> i == j),
{
}

/// What a plugin answered counts only where the operation was carried out; that the credential must be
/// refreshed first is passed on, and a refusal is a bad answer.
pub proof fn completed_operations<T>(reply: Reply<T>)
    ensures
        completion(reply) is Ok <==> reply is Completed,
        reply matches Reply::Completed(result) ==> completion(reply) == Ok::<
            T,
            ProviderAdminError,
        >(result),
        reply is CredentialRefreshRequired ==> completion(reply)->Err_0.kind
            is CredentialRefreshRequired,
        reply is Rejected ==> completion(reply)->Err_0.kind is BadGateway,
{
}

/// A credit is consumed only where the plugin does so, and only by a request whose number was drawn at
/// random; a credit that is wanted has a name.
pub proof fn redeemed_in_order(command: ConsumeResetCredit, operations: Seq<AccountOperation>)
    ensures
        redeem_fault(command, operations) is None <==> {
            &&& operations.contains(AccountOperation::ConsumeResetCredit)
            &&& is_random_uuid(command.redeem_request_id@)
            &&& command.credit_id is Some ==> is_name(command.credit_id->0@)
        },
        !operations.contains(AccountOperation::ConsumeResetCredit) ==> redeem_fault(
            command,
            operations,
        ) == Some(ProviderAdminErrorKind::Unsupported),
        operations.contains(AccountOperation::ConsumeResetCredit) && redeem_fault(
            command,
            operations,
        ) is Some ==> redeem_fault(command, operations) == Some(ProviderAdminErrorKind::Invalid),
{
}

/// What came of consuming a credit names the credit that was wanted, where it names one and one was
/// wanted; it has a code in any case.
pub proof fn redeemed_what_was_wanted(credit_id: Option<String>, result: ProviderResetCreditResult)
    ensures
        is_redeemed(credit_id, result) <==> {
            &&& is_name(result.code@)
            &&& result.credit is Some ==> is_credit(result.credit->0)
            &&& result.credit is Some && credit_id is Some ==> result.credit->0.id@ == credit_id->0@
        },
{
}

/// What is shown of the credits of an account.
pub open spec fn is_query_answer(
    reply: Reply<ProviderResetCredits>,
    result: Result<ProviderResetCredits, ProviderAdminError>,
) -> bool {
    match completion(reply) {
        Ok(credits) => if are_credits(credits.credits@) {
            result matches Ok(shown) && shown == credits
        } else {
            result matches Err(error) && error == admin(ProviderAdminErrorKind::BadGateway)
        },
        Err(fault) => result matches Err(error) && error == fault,
    }
}

/// What is told of a credit that was to be used.
pub open spec fn is_redeem_answer(
    credit_id: Option<String>,
    reply: Reply<ProviderResetCreditResult>,
    identity_kept: bool,
    result: Result<ProviderResetCreditResult, ProviderAdminError>,
) -> bool {
    if !identity_kept {
        result matches Err(error) && error == admin(ProviderAdminErrorKind::Ambiguous)
    } else {
        match completion(reply) {
            Ok(answered) => if is_redeemed(credit_id, answered) {
                result matches Ok(told) && told == answered
            } else {
                result matches Err(error) && error == admin(ProviderAdminErrorKind::Ambiguous)
            },
            Err(fault) => result matches Err(error) && error == fault,
        }
    }
}

/// That a credit was used is told only if the account is still the same and the answer is about the
/// credit that was wanted. Whatever cannot be taken at its word leaves open whether it was used.
pub proof fn used_only_if_said(
    credit_id: Option<String>,
    reply: Reply<ProviderResetCreditResult>,
    identity_kept: bool,
    result: Result<ProviderResetCreditResult, ProviderAdminError>,
)
    requires
        is_redeem_answer(credit_id, reply, identity_kept, result),
    ensures
        result matches Ok(told) ==> identity_kept && reply == Reply::Completed(told) && is_redeemed(
            credit_id,
            told,
        ),
        !identity_kept ==> (result matches Err(error) && error.kind is Ambiguous),
        reply matches Reply::Completed(told) ==> (!is_redeemed(credit_id, told) ==> (result matches Err(
            error,
        ) && error.kind is Ambiguous)),
        reply matches Reply::Completed(told) ==> (identity_kept && is_redeemed(credit_id, told)
            ==> result is Ok),
        reply is CredentialRefreshRequired && identity_kept ==> (result matches Err(error)
            && error.kind is CredentialRefreshRequired),
{
}

/// Credits are shown as they were answered, if they are in order.
pub proof fn credits_as_answered(
    reply: Reply<ProviderResetCredits>,
    result: Result<ProviderResetCredits, ProviderAdminError>,
)
    requires
        is_query_answer(reply, result),
    ensures
        result matches Ok(shown) ==> reply == Reply::Completed(shown) && are_credits(shown.credits@),
        reply matches Reply::Completed(told) ==> (are_credits(told.credits@) ==> result is Ok),
        reply matches Reply::Completed(told) ==> (!are_credits(told.credits@) ==> (result matches Err(
            error,
        ) && error.kind is BadGateway)),
        !(reply is Completed) ==> result is Err,
{
}

} // verus!
