//! Batch transfers: one funder pays many recipients in one token.
//!
//! [`process_batch`] decides whether a batch is accepted and which payments it makes.
//! The contract carries them out; a batch that is refused makes none.

use crate::account::Account;
use vstd::prelude::*;

verus! {

/// The most payments that a batch can make.
pub const MAX_BATCH_SIZE: usize = 100;

/// Why a batch is refused.
#[derive(Copy, Clone, Debug, PartialEq, Eq)]
pub enum Error {
    /// There are not as many amounts as recipients.
    LengthMismatch,
    /// There are more than [`MAX_BATCH_SIZE`] payments.
    BatchTooLarge,
    /// An amount is zero or negative.
    InvalidAmount,
    /// The total does not fit in 128 bits.
    ArithmeticOverflow,
}

/// One payment of a batch.
#[derive(Copy, Clone, Debug, PartialEq, Eq)]
pub struct Transfer {
    /// Who is paid.
    pub recipient: Account,
    /// How much.
    pub amount: i128,
}

/// An accepted batch.
#[derive(Debug, PartialEq, Eq)]
pub struct Batch {
    /// The payments, in the order in which they are made.
    pub transfers: Vec<Transfer>,
    /// What they cost the funder.
    pub total: i128,
}

/// The sum of the amounts.
pub open spec fn sum(amounts: Seq<i128>) -> int
    decreases amounts.len(),
{
    if amounts.len() == 0 {
        0
    } else {
        sum(amounts.drop_last()) + amounts.last()
    }
}

/// Whether every amount is positive.
pub open spec fn all_positive(amounts: Seq<i128>) -> bool {
    forall|i: int| 0 <= i < amounts.len() ==> #[trigger] amounts[i] > 0
}

/// Why the batch is refused, if it is.
pub open spec fn refusal(recipients: Seq<Account>, amounts: Seq<i128>) -> Option<Error> {
    if recipients.len() != amounts.len() {
        Some(Error::LengthMismatch)
    } else if recipients.len() > MAX_BATCH_SIZE {
        Some(Error::BatchTooLarge)
    } else if !all_positive(amounts) {
        Some(Error::InvalidAmount)
    } else if sum(amounts) > i128::MAX {
        Some(Error::ArithmeticOverflow)
    } else {
        None
    }
}

/// The payments of a batch: to each recipient the amount at the same position.
pub open spec fn payments(recipients: Seq<Account>, amounts: Seq<i128>) -> Seq<Transfer> {
    Seq::new(
        recipients.len(),
        |i: int| Transfer { recipient: recipients[i], amount: amounts[i] },
    )
}

/// Positive amounts add up to at least what the first of them add up to.
proof fn lemma_sum_grows(amounts: Seq<i128>, n: int)
    requires
        all_positive(amounts),
        0 <= n <= amounts.len(),
    ensures
        0 <= sum(amounts.take(n)) <= sum(amounts),
    decreases amounts.len(),
{
    if n == amounts.len() {
        assert(amounts.take(n) =~= amounts);
        if n > 0 {
            lemma_sum_grows(amounts.drop_last(), n - 1);
            assert(amounts.drop_last().take(n - 1) =~= amounts.drop_last());
        }
    } else {
        lemma_sum_grows(amounts.drop_last(), n);
        assert(amounts.drop_last().take(n) =~= amounts.take(n));
    }
}

/// Whether every amount is positive.
fn check_amounts(amounts: &Vec<i128>) -> (positive: bool)
    ensures
        positive == all_positive(amounts@),
{
    let mut i: usize = 0;
    while i < amounts.len()
        invariant
            i <= amounts@.len(),
            forall|j: int| 0 <= j < i ==> #[trigger] amounts@[j] > 0,
        decreases amounts@.len() - i,
    {
        if amounts[i] <= 0 {
            assert(amounts@[i as int] <= 0);
            return false;
        }
        i += 1;
    }
    true
}

/// Decides on a batch: to each recipient the amount at the same position. An empty
/// batch is accepted. Returns the payments and their total, or why it is refused.
pub fn process_batch(recipients: &Vec<Account>, amounts: &Vec<i128>) -> (result: Result<
    Batch,
    Error,
>)
    ensures
        match refusal(recipients@, amounts@) {
            Some(error) => result == Err::<Batch, Error>(error),
            None => result is Ok && result->Ok_0.total == sum(amounts@)
                && result->Ok_0.transfers@ == payments(recipients@, amounts@),
        },
{
    if recipients.len() != amounts.len() {
        return Err(Error::LengthMismatch);
    }
    if recipients.len() > MAX_BATCH_SIZE {
        return Err(Error::BatchTooLarge);
    }
    if !check_amounts(amounts) {
        return Err(Error::InvalidAmount);
    }
    let mut transfers: Vec<Transfer> = Vec::new();
    let mut total: i128 = 0;
    let mut i: usize = 0;
    while i < amounts.len()
        invariant
            i <= amounts@.len(),
            recipients@.len() == amounts@.len(),
            recipients@.len() <= MAX_BATCH_SIZE,
            all_positive(amounts@),
            total == sum(amounts@.take(i as int)),
            transfers@ == payments(recipients@, amounts@).take(i as int),
        decreases amounts@.len() - i,
    {
        proof {
            assert(amounts@.take(i + 1).drop_last() =~= amounts@.take(i as int));
            lemma_sum_grows(amounts@, i + 1);
        }
        match total.checked_add(amounts[i]) {
            Some(next) => {
                total = next;
            },
            None => {
                return Err(Error::ArithmeticOverflow);
            },
        }
        transfers.push(Transfer { recipient: recipients[i], amount: amounts[i] });
        assert(transfers@ =~= payments(recipients@, amounts@).take(i + 1));
        i += 1;
    }
    assert(amounts@.take(i as int) =~= amounts@);
    assert(payments(recipients@, amounts@).take(i as int) =~= payments(recipients@, amounts@));
    Ok(Batch { transfers, total })
}

/// An accepted batch pays everyone something, pays out exactly its total, and makes no
/// more than [`MAX_BATCH_SIZE`] payments.
pub proof fn law_accepted_batch(recipients: Seq<Account>, amounts: Seq<i128>)
    requires
        refusal(recipients, amounts) is None,
    ensures
        payments(recipients, amounts).len() == recipients.len() <= MAX_BATCH_SIZE,
        forall|i: int|
            0 <= i < recipients.len() ==> (#[trigger] payments(recipients, amounts)[i]).amount > 0
                && payments(recipients, amounts)[i].recipient == recipients[i],
        0 <= sum(amounts) <= i128::MAX,
        sum(payments(recipients, amounts).map_values(|transfer: Transfer| transfer.amount)) == sum(
            amounts,
        ),
{
    lemma_sum_grows(amounts, 0);
    assert(payments(recipients, amounts).map_values(|transfer: Transfer| transfer.amount)
        =~= amounts);
}

/// The sum is what adding the amounts up one after the other comes to.
proof fn lemma_sum_is_fold(amounts: Seq<i128>)
    ensures
        sum(amounts) == amounts.fold_left(0int, |total: int, amount: i128| total + amount),
    decreases amounts.len(),
{
    if amounts.len() > 0 {
        lemma_sum_is_fold(amounts.drop_last());
    }
}

/// No amounts add up to nothing, and one more amount adds just itself, wherever the
/// amounts are cut in two.
pub proof fn law_amounts_add_up(left: Seq<i128>, right: Seq<i128>, amount: i128)
    ensures
        sum(Seq::<i128>::empty()) == 0,
        sum(seq![amount]) == amount,
        sum(left + right) == sum(left) + sum(right),
    decreases right.len(),
{
    assert(sum(seq![amount]) == amount) by {
        reveal_with_fuel(sum, 2);
        assert(seq![amount].drop_last() =~= Seq::<i128>::empty());
    }
    if right.len() == 0 {
        assert(left + right =~= left);
    } else {
        law_amounts_add_up(left, right.drop_last(), amount);
        assert((left + right).drop_last() =~= left + right.drop_last());
    }
}

/// An accepted batch makes one payment for each recipient, in the order given: to the
/// recipient at a position the amount at that position.
pub proof fn law_each_recipient_is_paid_its_amount(
    recipients: &Vec<Account>,
    amounts: &Vec<i128>,
    batch: Batch,
)
    requires
        call_ensures(process_batch, (recipients, amounts), Ok::<Batch, Error>(batch)),
    ensures
        batch.transfers@.len() == recipients@.len(),
        batch.transfers@.len() == amounts@.len(),
        forall|i: int|
            0 <= i < recipients@.len() ==> (#[trigger] batch.transfers@[i]).recipient
                == recipients@[i] && batch.transfers@[i].amount == amounts@[i],
{
}

/// The total of an accepted batch is all of its amounts added up, which is what its
/// payments add up to.
pub proof fn law_total_is_what_is_paid(
    recipients: &Vec<Account>,
    amounts: &Vec<i128>,
    batch: Batch,
)
    requires
        call_ensures(process_batch, (recipients, amounts), Ok::<Batch, Error>(batch)),
    ensures
        batch.total == amounts@.fold_left(0int, |total: int, amount: i128| total + amount),
        batch.total == batch.transfers@.fold_left(
            0int,
            |total: int, transfer: Transfer| total + transfer.amount,
        ),
{
    lemma_sum_is_fold(amounts@);
    lemma_paid_is_fold(amounts@, batch.transfers@);
}

/// Payments of the amounts add up to what the amounts add up to.
proof fn lemma_paid_is_fold(amounts: Seq<i128>, transfers: Seq<Transfer>)
    requires
        transfers.len() == amounts.len(),
        forall|i: int| 0 <= i < amounts.len() ==> (#[trigger] transfers[i]).amount == amounts[i],
    ensures
        transfers.fold_left(0int, |total: int, transfer: Transfer| total + transfer.amount)
            == amounts.fold_left(0int, |total: int, amount: i128| total + amount),
    decreases amounts.len(),
{
    if amounts.len() > 0 {
        lemma_paid_is_fold(amounts.drop_last(), transfers.drop_last());
    }
}

/// Any batch can be handed in, and it is accepted exactly when there are as many
/// recipients as amounts, not more than the limit, every amount is positive, and the
/// total fits in 128 bits.
pub proof fn law_acceptance(
    recipients: &Vec<Account>,
    amounts: &Vec<i128>,
    result: Result<Batch, Error>,
)
    requires
        call_ensures(process_batch, (recipients, amounts), result),
    ensures
        call_requires(process_batch, (recipients, amounts)),
        MAX_BATCH_SIZE == 100,
        result is Ok <==> {
            &&& recipients@.len() == amounts@.len()
            &&& recipients@.len() <= MAX_BATCH_SIZE
            &&& forall|i: int| 0 <= i < amounts@.len() ==> #[trigger] amounts@[i] > 0
            &&& amounts@.fold_left(0int, |total: int, amount: i128| total + amount) <= i128::MAX
        },
{
    lemma_sum_is_fold(amounts@);
}

/// A refused batch is refused for the first of these that it fails: there are as many
/// amounts as recipients, no more than the limit, no amount is zero or negative, and the
/// total fits in 128 bits. Each reason is given only for what it says.
pub proof fn law_refusals(recipients: &Vec<Account>, amounts: &Vec<i128>, error: Error)
    requires
        call_ensures(process_batch, (recipients, amounts), Err::<Batch, Error>(error)),
    ensures
        error == Error::LengthMismatch <==> recipients@.len() != amounts@.len(),
        error == Error::BatchTooLarge <==> recipients@.len() == amounts@.len()
            && recipients@.len() > MAX_BATCH_SIZE,
        error == Error::InvalidAmount <==> recipients@.len() == amounts@.len() && recipients@.len()
            <= MAX_BATCH_SIZE && (exists|i: int|
            0 <= i < amounts@.len() && #[trigger] amounts@[i] <= 0),
        error == Error::ArithmeticOverflow <==> {
            &&& recipients@.len() == amounts@.len()
            &&& recipients@.len() <= MAX_BATCH_SIZE
            &&& forall|i: int| 0 <= i < amounts@.len() ==> #[trigger] amounts@[i] > 0
            &&& amounts@.fold_left(0int, |total: int, amount: i128| total + amount) > i128::MAX
        },
{
    lemma_sum_is_fold(amounts@);
}

/// One more payment at the end of an accepted batch leaves the others as they are and
/// raises the total by its amount.
pub proof fn law_one_more_payment(
    recipients: &Vec<Account>,
    amounts: &Vec<i128>,
    batch: Batch,
    more_recipients: &Vec<Account>,
    more_amounts: &Vec<i128>,
    more: Batch,
    recipient: Account,
    amount: i128,
)
    requires
        call_ensures(process_batch, (recipients, amounts), Ok::<Batch, Error>(batch)),
        call_ensures(process_batch, (more_recipients, more_amounts), Ok::<Batch, Error>(more)),
        more_recipients@ == recipients@.push(recipient),
        more_amounts@ == amounts@.push(amount),
    ensures
        more.transfers@ == batch.transfers@.push((Transfer { recipient, amount })),
        more.total == batch.total + amount,
{
    assert(more_amounts@.drop_last() =~= amounts@);
}

} // verus!
