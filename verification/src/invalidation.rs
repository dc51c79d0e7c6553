//! What a plugin is told when accounts change: which notices are sent, in which portions, and for
//! how long.

use vstd::prelude::*;

use crate::json::{Json, JsonView};
use crate::manifest::{has_account_operation, AccountOperation};
use crate::text::{ascending, is_ascending, texts};

verus! {

/// How long one round of notices may take, in nanoseconds.
pub const NOTICE_NANOS: u128 = 2_000_000_000;

/// How many accounts one notice names at most.
pub const BATCH_SIZE: usize = 256;

/// A notice on accounts.
pub enum AccountInvalidation {
    Unavailable { account_id: String },
    FactsChanged { account_ids: Vec<String> },
}

/// The notice that an account cannot be used, for a plugin that wants to know.
pub fn unavailable_notice(operations: &Vec<AccountOperation>, account_id: &str) -> (notice: Option<
    AccountInvalidation,
>)
    ensures
        notice is Some == operations@.contains(AccountOperation::Unavailable),
        notice matches Some(told) ==> (told matches AccountInvalidation::Unavailable {
            account_id: named,
        } && named@ == account_id@),
{
    if has_account_operation(operations, AccountOperation::Unavailable) {
        Some(AccountInvalidation::Unavailable { account_id: account_id.to_owned() })
    } else {
        None
    }
}

/// A round of notices on accounts whose facts changed.
pub struct FactsRound {
    /// The accounts, each once, in order.
    pub accounts: Vec<String>,
    /// How many of them have been told.
    pub told: usize,
}

impl FactsRound {
    /// The accounts are in order, and no more have been told than there are.
    pub open spec fn well_formed(&self) -> bool {
        is_ascending(texts(self.accounts@)) && self.told <= self.accounts@.len()
    }

    /// Starts a round. A plugin that does not want to know is told of no account.
    pub fn new(operations: &Vec<AccountOperation>, account_ids: &Vec<String>) -> (round: Self)
        ensures
            round.well_formed(),
            round.is_begun(operations@, account_ids@),
    {
        if has_account_operation(operations, AccountOperation::FactsChanged) {
            FactsRound { accounts: ascending(account_ids), told: 0 }
        } else {
            let accounts: Vec<String> = Vec::new();
            assert(texts(accounts@).to_set() =~= Set::empty());
            FactsRound { accounts, told: 0 }
        }
    }

    /// Where the next portion ends.
    pub open spec fn portion_end(&self) -> int {
        if self.accounts@.len() - self.told < BATCH_SIZE {
            self.accounts@.len() as int
        } else {
            self.told + BATCH_SIZE
        }
    }

    /// The next notice, or none when all accounts have been told.
    pub fn next_notice(&mut self) -> (notice: Option<AccountInvalidation>)
        requires
            old(self).well_formed(),
        ensures
            final(self).well_formed(),
            final(self).tells(old(self), notice),
    {
        let total = self.accounts.len();
        if self.told == total {
            return None;
        }
        let end: usize = if total - self.told < BATCH_SIZE {
            total
        } else {
            self.told + BATCH_SIZE
        };
        let mut account_ids: Vec<String> = Vec::new();
        let start = self.told;
        for i in start..end
            invariant
                start <= end <= self.accounts@.len(),
                texts(account_ids@) == texts(self.accounts@.subrange(start as int, i as int)),
        {
            let ghost earlier = account_ids@;
            account_ids.push(self.accounts[i].as_str().to_owned());
            proof {
                assert(texts(account_ids@) =~= texts(earlier).push(self.accounts@[i as int]@));
                assert(self.accounts@.subrange(start as int, i + 1) =~= self.accounts@.subrange(
                    start as int,
                    i as int,
                ).push(self.accounts@[i as int]));
                assert(texts(self.accounts@.subrange(start as int, i + 1)) =~= texts(
                    self.accounts@.subrange(start as int, i as int),
                ).push(self.accounts@[i as int]@));
            }
        }
        self.told = end;
        Some(AccountInvalidation::FactsChanged { account_ids })
    }
}

/// How long a notice may still take, in nanoseconds; none may be sent when the time is over.
pub fn time_left(deadline: u128, now: u128) -> (left: Option<u128>)
    ensures
        left == (if deadline > now {
            Some((deadline - now) as u128)
        } else {
            None
        }),
{
    if deadline > now {
        Some(deadline - now)
    } else {
        None
    }
}

/// Whether a notice came through: the plugin answered with nothing to say. `None` stands for a call
/// that failed or took too long.
pub fn acknowledged(reply: Option<(&Json, &Vec<u8>)>) -> (r: bool)
    ensures
        r == (reply matches Some(answer) && answer.0@ == JsonView::Object(Map::empty())
            && answer.1@.len() == 0),
{
    match reply {
        Some(answer) => answer.0.is_empty_object() && answer.1.len() == 0,
        None => false,
    }
}

/// Each account of a round is told once: what a notice names comes after all that was told before,
/// and no notice names more accounts than one may.
pub proof fn portions_follow(round: FactsRound)
    requires
        round.well_formed(),
        round.told < round.accounts@.len(),
    ensures
        round.told < round.portion_end() <= round.accounts@.len(),
        round.portion_end() - round.told <= BATCH_SIZE,
        round.portion_end() < round.accounts@.len() ==> round.portion_end() - round.told
            == BATCH_SIZE,
        round.accounts@.take(round.told as int) + round.accounts@.subrange(
            round.told as int,
            round.portion_end(),
        ) == round.accounts@.take(round.portion_end()),
{
    assert(round.accounts@.take(round.told as int) + round.accounts@.subrange(
        round.told as int,
        round.portion_end(),
    ) =~= round.accounts@.take(round.portion_end()));
}

/// A notice names 256 accounts, or those that are left where they are fewer.
pub proof fn portions_by_number(round: FactsRound)
    requires
        round.well_formed(),
    ensures
        round.accounts@.len() - round.told >= 256 ==> round.portion_end() == round.told + 256,
        round.accounts@.len() - round.told < 256 ==> round.portion_end() == round.accounts@.len(),
{
}

impl FactsRound {
    /// A round of notices that begins: everybody is told of whom the plugin wants to hear.
    pub open spec fn is_begun(
        &self,
        operations: Seq<AccountOperation>,
        account_ids: Seq<String>,
    ) -> bool {
        &&& self.told == 0
        &&& texts(self.accounts@).to_set() == (if operations.contains(
            AccountOperation::FactsChanged,
        ) {
            texts(account_ids).to_set()
        } else {
            Set::empty()
        })
    }

    /// What telling the next portion does.
    pub open spec fn tells(&self, before: &Self, notice: Option<AccountInvalidation>) -> bool {
        &&& self.accounts@ == before.accounts@
        &&& self.told == before.portion_end()
        &&& notice is None == (before.told == before.accounts@.len())
        &&& notice matches Some(told) ==> (told matches AccountInvalidation::FactsChanged {
            account_ids,
        } && texts(account_ids@) == texts(
            before.accounts@.subrange(before.told as int, before.portion_end()),
        ))
    }
}

/// The plugin is told of just the accounts that changed, if it wants to hear of them.
pub proof fn told_of_whom_it_wants(
    round: FactsRound,
    operations: Seq<AccountOperation>,
    account_ids: Seq<String>,
    name: Seq<char>,
)
    requires
        round.is_begun(operations, account_ids),
    ensures
        texts(round.accounts@).contains(name) <==> operations.contains(
            AccountOperation::FactsChanged,
        ) && exists|i: int| 0 <= i < account_ids.len() && (#[trigger] account_ids[i])@ == name,
        round.told == 0,
{
    crate::text::texts_at_their_places(account_ids, name);
    assert(texts(round.accounts@).to_set().contains(name) == texts(round.accounts@).contains(name));
    assert(texts(account_ids).to_set().contains(name) == texts(account_ids).contains(name));
}

/// A notice names the accounts that come next, at most 256 of them, and the one after it goes on where it
/// ends; there is none once all were told.
pub proof fn told_one_after_another(
    before: FactsRound,
    after: FactsRound,
    notice: Option<AccountInvalidation>,
)
    requires
        before.well_formed(),
        after.tells(&before, notice),
    ensures
        notice is None <==> before.told == before.accounts@.len(),
        notice matches Some(AccountInvalidation::FactsChanged { account_ids }) ==> 0
            < account_ids@.len() <= 256 && after.told == before.told + account_ids@.len() && texts(
            account_ids@,
        ) == texts(before.accounts@.subrange(before.told as int, after.told as int)),
        notice is Some ==> notice->0 is FactsChanged,
        after.accounts@ == before.accounts@,
{
    portions_by_number(before);
    if let Some(AccountInvalidation::FactsChanged { account_ids }) = notice {
        let part = before.accounts@.subrange(before.told as int, before.portion_end());
        assert(texts(account_ids@).len() == texts(part).len());
    }
}

} // verus!
