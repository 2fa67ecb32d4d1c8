//! The deposit-witness rules: which ledger payments count as deposits,
//! and when a seen deposit counts as confirmed.
//!
//! The witness service watches a door account on an external ledger. A
//! payment is a deposit only if it pays the door account and carries a
//! destination tag (the target account on this chain), a sender, and a
//! native-currency amount. A deposit seen in some ledger is processed
//! only after the confirmation threshold of further ledgers has closed
//! over it. The watching itself is I/O and lives outside this crate; the
//! payment's fields arrive here as plain values.

use vstd::prelude::*;

verus! {

/// The mathematical value of a deposit notice.
#[verifier::ext_equal]
pub ghost struct DepositView {
    pub from: Seq<char>,
    pub amount: Seq<char>,
    pub l2_destination: u64,
}

/// A deposit observed on the external ledger: who paid, how much, and
/// the destination account on this chain.
pub struct DepositInfo {
    pub from: String,
    pub amount: String,
    pub l2_destination: u64,
}

impl View for DepositInfo {
    type V = DepositView;

    open spec fn view(&self) -> DepositView {
        DepositView {
            from: self.from@,
            amount: self.amount@,
            l2_destination: self.l2_destination,
        }
    }
}

impl DeepView for DepositInfo {
    type V = DepositView;

    open spec fn deep_view(&self) -> DepositView {
        self@
    }
}

impl Clone for DepositInfo {
    fn clone(&self) -> (r: Self)
        ensures
            r@ == self@,
    {
        let r = DepositInfo {
            from: self.from.clone(),
            amount: self.amount.clone(),
            l2_destination: self.l2_destination,
        };
        proof {
            assert(r@ =~= self@);
        }
        r
    }
}

/// The mathematical value of a queued deposit.
#[verifier::ext_equal]
pub ghost struct PendingView {
    pub info: DepositView,
    pub seen_in_ledger: u32,
}

/// A deposit awaiting confirmation, tagged with the ledger it was seen
/// in.
pub struct PendingDeposit {
    pub info: DepositInfo,
    pub seen_in_ledger: u32,
}

impl View for PendingDeposit {
    type V = PendingView;

    open spec fn view(&self) -> PendingView {
        PendingView { info: self.info@, seen_in_ledger: self.seen_in_ledger }
    }
}

impl DeepView for PendingDeposit {
    type V = PendingView;

    open spec fn deep_view(&self) -> PendingView {
        self@
    }
}

impl Clone for PendingDeposit {
    fn clone(&self) -> (r: Self)
        ensures
            r@ == self@,
    {
        let r = PendingDeposit { info: self.info.clone(), seen_in_ledger: self.seen_in_ledger };
        proof {
            assert(r@ =~= self@);
        }
        r
    }
}

/// Whether a deposit seen in ledger `seen` is final once the current
/// ledger index is `current`: at least `threshold` ledgers have closed
/// since it was seen. A deposit reported from a ledger ahead of the
/// current index is never confirmed.
pub open spec fn spec_confirmed(seen: u32, current: u32, threshold: u32) -> bool {
    seen <= current && current - seen >= threshold
}

/// Whether a deposit seen in ledger `seen` is final at ledger `current`.
pub fn is_confirmed(seen: u32, current: u32, threshold: u32) -> (r: bool)
    ensures
        r == spec_confirmed(seen, current, threshold),
{
    seen <= current && current - seen >= threshold
}

/// The queue entries not yet confirmed at ledger `current`, in order.
pub open spec fn spec_still_pending(q: Seq<PendingView>, current: u32, threshold: u32) -> Seq<
    PendingView,
>
    decreases q.len(),
{
    if q.len() == 0 {
        Seq::<PendingView>::empty()
    } else if spec_confirmed(q.last().seen_in_ledger, current, threshold) {
        spec_still_pending(q.drop_last(), current, threshold)
    } else {
        spec_still_pending(q.drop_last(), current, threshold).push(q.last())
    }
}

/// The queue entries confirmed at ledger `current`, in order.
pub open spec fn spec_ready(q: Seq<PendingView>, current: u32, threshold: u32) -> Seq<PendingView>
    decreases q.len(),
{
    if q.len() == 0 {
        Seq::<PendingView>::empty()
    } else if spec_confirmed(q.last().seen_in_ledger, current, threshold) {
        spec_ready(q.drop_last(), current, threshold).push(q.last())
    } else {
        spec_ready(q.drop_last(), current, threshold)
    }
}

/// Splits the pending queue at ledger `current`: the first vector keeps
/// every deposit still awaiting confirmation, the second holds every
/// deposit now confirmed and due for processing, both in queue order.
pub fn split_confirmed(queue: Vec<PendingDeposit>, current: u32, threshold: u32) -> (r: (
    Vec<PendingDeposit>,
    Vec<PendingDeposit>,
))
    ensures
        r.0.deep_view() == spec_still_pending(queue.deep_view(), current, threshold),
        r.1.deep_view() == spec_ready(queue.deep_view(), current, threshold),
{
    let n = queue.len();
    let mut pending: Vec<PendingDeposit> = Vec::new();
    let mut ready: Vec<PendingDeposit> = Vec::new();
    let mut i: usize = 0;
    while i < n
        invariant
            n == queue@.len(),
            i <= n,
            pending.deep_view() =~= spec_still_pending(
                queue.deep_view().take(i as int),
                current,
                threshold,
            ),
            ready.deep_view() =~= spec_ready(queue.deep_view().take(i as int), current, threshold),
        decreases n - i,
    {
        proof {
            assert(queue.deep_view().take(i + 1).drop_last() =~= queue.deep_view().take(i as int));
        }
        if is_confirmed(queue[i].seen_in_ledger, current, threshold) {
            ready.push(queue[i].clone());
        } else {
            pending.push(queue[i].clone());
        }
        i = i + 1;
    }
    proof {
        assert(queue.deep_view().take(n as int) =~= queue.deep_view());
    }
    (pending, ready)
}

/// The fields of an external-ledger payment that the deposit rule reads,
/// as plain values: the paid account, the optional destination tag, the
/// optional sending account, and the amount if it was in the native
/// currency.
pub struct PaymentFields {
    pub destination: String,
    pub destination_tag: Option<u64>,
    pub account: Option<String>,
    pub xrp_amount: Option<String>,
}

/// Reads a payment as a deposit: `Some` exactly when the payment pays
/// the door account and carries a destination tag, a sender, and a
/// native-currency amount; the deposit then records those three.
pub fn parse_deposit_transaction(payment: &PaymentFields, door_account: &String) -> (r: Option<
    DepositInfo,
>)
    ensures
        match r {
            Some(d) => {
                &&& payment.destination@ == door_account@
                &&& payment.destination_tag is Some
                &&& payment.account is Some
                &&& payment.xrp_amount is Some
                &&& d.from@ == payment.account->0@
                &&& d.amount@ == payment.xrp_amount->0@
                &&& d.l2_destination == payment.destination_tag->0
            },
            None => {
                ||| payment.destination@ != door_account@
                ||| payment.destination_tag is None
                ||| payment.account is None
                ||| payment.xrp_amount is None
            },
        },
{
    if payment.destination == *door_account {
        match (&payment.destination_tag, &payment.account, &payment.xrp_amount) {
            (Some(tag), Some(sender), Some(amount)) => Some(
                DepositInfo { from: sender.clone(), amount: amount.clone(), l2_destination: *tag },
            ),
            _ => None,
        }
    } else {
        None
    }
}

} // verus!
