//! Ring-pattern transfers: who pays whom, and at which nonce.

use crate::ring::next_index;
use vstd::prelude::*;

verus! {

/// A transfer to sign.
#[derive(Debug, Clone, Copy, PartialEq, Eq, Structural)]
pub struct Transfer {
    /// Index of the paying account.
    pub sender: usize,
    /// Index of the paid account.
    pub recipient: usize,
    /// Amount.
    pub value: u64,
    /// Nonce of the paying account.
    pub nonce: u64,
}

/// The transfer at `at` of a batch that starts at `cursor`: senders follow the ring, each pays its
/// successor, and each uses its own next nonce.
pub open spec fn transfer_at(nonces: Seq<u64>, cursor: int, value: u64, at: int) -> Transfer {
    let size = nonces.len() as int;
    let sender = crate::ring::position(cursor, at, size);
    Transfer {
        sender: sender as usize,
        recipient: crate::ring::successor(sender, size) as usize,
        value,
        nonce: (nonces[sender] + at / size) as u64,
    }
}

/// The transfers of a batch.
pub open spec fn batch_transfers(nonces: Seq<u64>, cursor: int, value: u64, count: nat) -> Seq<
    Transfer,
> {
    Seq::new(count, |at: int| transfer_at(nonces, cursor, value, at))
}

/// The next nonce of an account after a batch.
pub open spec fn nonce_after(nonces: Seq<u64>, cursor: int, count: int, account: int) -> int {
    nonces[account] + crate::ring::visits(account, cursor, count, nonces.len() as int)
}

/// The next nonces after a batch.
pub open spec fn nonces_after(nonces: Seq<u64>, cursor: int, count: int) -> Seq<u64> {
    Seq::new(nonces.len(), |i: int| nonce_after(nonces, cursor, count, i) as u64)
}

/// Whether no nonce of a batch is out of range.
pub open spec fn nonces_fit(nonces: Seq<u64>, cursor: int, count: int) -> bool {
    forall|i: int|
        0 <= i < nonces.len() ==> #[trigger] nonce_after(nonces, cursor, count, i) <= u64::MAX
}

/// Assigns the transfers of a variable-size batch while preserving per-account nonce order.
///
/// Senders are selected by walking the account ring from `cursor`. Each selected account uses and
/// increments its own nonce, so callers can vary `count` per submission without creating nonce gaps.
pub fn sign_batch(
    accounts: usize,
    value: u64,
    nonces: &mut Vec<u64>,
    cursor: &mut usize,
    count: usize,
) -> (batch: Vec<Transfer>)
    requires
        old(nonces)@.len() == accounts,
        accounts > 0,
        count > 0,
        *old(cursor) < accounts,
        nonces_fit(old(nonces)@, *old(cursor) as int, count as int),
    ensures
        batch@ == batch_transfers(old(nonces)@, *old(cursor) as int, value, count as nat),
        final(nonces)@ == nonces_after(old(nonces)@, *old(cursor) as int, count as int),
        *final(cursor) == crate::ring::position(*old(cursor) as int, count as int, accounts as int),
{
    let ghost before = nonces@;
    let ghost start = *cursor as int;
    let mut batch: Vec<Transfer> = Vec::new();
    let mut i: usize = 0;
    proof {
        crate::ring::step(start, 0, accounts as int);
        assert forall|a: int| 0 <= a < accounts implies #[trigger] nonce_after(before, start, 0, a)
            == before[a] by {
            crate::ring::visits_step(a, start, 0, accounts as int);
        }
        assert(nonces@ =~= nonces_after(before, start, 0));
    }
    while i < count
        invariant
            i <= count,
            accounts > 0,
            before.len() == accounts,
            0 <= start < accounts,
            nonces_fit(before, start, count as int),
            nonces@ == nonces_after(before, start, i as int),
            *cursor == crate::ring::position(start, i as int, accounts as int),
            *cursor < accounts,
            batch@ == batch_transfers(before, start, value, i as nat),
        decreases count - i,
    {
        let sender: usize = *cursor;
        let nonce: u64 = nonces[sender];
        proof {
            crate::ring::step(start, i as int, accounts as int);
            crate::ring::visits_step(sender as int, start, i as int, accounts as int);
            crate::ring::visits_grow(sender as int, start, i + 1, count as int, accounts as int);
            assert(nonce_after(before, start, count as int, sender as int) <= u64::MAX);
            assert(nonce_after(before, start, i + 1, sender as int) <= u64::MAX);
            assert(nonce_after(before, start, i as int, sender as int) == before[sender as int] + (
            i as int) / (accounts as int));
        }
        nonces.set(sender, nonce + 1);
        let recipient: usize = next_index(sender, accounts);
        *cursor = recipient;
        batch.push(Transfer { sender, recipient, value, nonce });
        proof {
            assert forall|a: int| 0 <= a < accounts && a != sender implies #[trigger] nonce_after(
                before,
                start,
                i + 1,
                a,
            ) == nonce_after(before, start, i as int, a) by {
                crate::ring::visits_step(a, start, i as int, accounts as int);
            }
            assert(nonces@ =~= nonces_after(before, start, i + 1));
            assert(batch@ =~= batch_transfers(before, start, value, (i + 1) as nat));
        }
        i += 1;
    }
    batch
}

/// Two batches in a row are one batch: splitting the work leaves no nonce out and uses none twice.
pub proof fn batches_leave_no_gaps(
    nonces: Seq<u64>,
    cursor: int,
    value: u64,
    first: nat,
    second: nat,
)
    requires
        0 <= cursor < nonces.len(),
        nonces_fit(nonces, cursor, (first + second) as int),
    ensures
        ({
            let middle = crate::ring::position(cursor, first as int, nonces.len() as int);
            let between = nonces_after(nonces, cursor, first as int);
            &&& batch_transfers(nonces, cursor, value, first) + batch_transfers(
                between,
                middle,
                value,
                second,
            ) == batch_transfers(nonces, cursor, value, first + second)
            &&& nonces_after(between, middle, second as int) == nonces_after(
                nonces,
                cursor,
                (first + second) as int,
            )
            &&& crate::ring::position(middle, second as int, nonces.len() as int)
                == crate::ring::position(cursor, (first + second) as int, nonces.len() as int)
        }),
{
    let size = nonces.len() as int;
    let middle = crate::ring::position(cursor, first as int, size);
    let between = nonces_after(nonces, cursor, first as int);
    crate::ring::step(cursor, first as int, size);
    crate::ring::walks_compose(cursor, first as int, second as int, size);
    assert forall|a: int| 0 <= a < size implies {
        &&& between[a] == nonces[a] + #[trigger] crate::ring::visits(a, cursor, first as int, size)
        &&& nonce_after(between, middle, second as int, a) == nonce_after(
            nonces,
            cursor,
            (first + second) as int,
            a,
        )
    } by {
        crate::ring::visits_compose(a, cursor, first as int, second as int, size);
        crate::ring::visits_grow(a, cursor, first as int, (first + second) as int, size);
        crate::ring::visits_step(a, cursor, first as int, size);
        assert(nonce_after(nonces, cursor, (first + second) as int, a) <= u64::MAX);
        assert(nonce_after(nonces, cursor, first as int, a) <= u64::MAX);
    }
    assert forall|a: int| 0 <= a < size implies nonces_after(between, middle, second as int)[a]
        == #[trigger] nonces_after(nonces, cursor, (first + second) as int)[a] by {
        assert(between[a] == nonces[a] + crate::ring::visits(a, cursor, first as int, size));
    }
    assert(nonces_after(between, middle, second as int) =~= nonces_after(
        nonces,
        cursor,
        (first + second) as int,
    ));
    let whole = batch_transfers(nonces, cursor, value, first + second);
    let parts = batch_transfers(nonces, cursor, value, first) + batch_transfers(
        between,
        middle,
        value,
        second,
    );
    assert forall|k: int| 0 <= k < first + second implies parts[k] == #[trigger] whole[k] by {
        if k >= first {
            let at = k - first;
            crate::ring::walks_compose(cursor, first as int, at, size);
            crate::ring::step(middle, at, size);
            let sender = crate::ring::position(middle, at, size);
            crate::ring::visits_step(sender, middle, at, size);
            crate::ring::visits_compose(sender, cursor, first as int, at, size);
            crate::ring::visits_step(sender, cursor, k, size);
            assert(between[sender] == nonces[sender] + crate::ring::visits(
                sender,
                cursor,
                first as int,
                size,
            ));
        }
    }
    assert(parts =~= whole);
}

/// Senders of a batch follow the ring from the cursor, and each pays the one that sends next. The
/// transfers of one round use the senders' next nonces, and the same sender one round later uses the
/// nonce after that.
pub proof fn transfers_pay_the_next_sender(
    nonces: Seq<u64>,
    cursor: int,
    value: u64,
    count: nat,
    at: int,
)
    requires
        0 <= cursor < nonces.len(),
        nonces.len() <= usize::MAX,
        nonces_fit(nonces, cursor, count as int),
        0 <= at < count,
    ensures
        ({
            let batch = batch_transfers(nonces, cursor, value, count);
            let size = nonces.len() as int;
            &&& batch.len() == count
            &&& batch[0].sender == cursor
            &&& batch[at].value == value
            &&& at + 1 < count ==> batch[at].recipient == batch[at + 1].sender
            &&& size > 1 ==> batch[at].recipient != batch[at].sender
            &&& at < size ==> batch[at].nonce == nonces[batch[at].sender as int]
            &&& at + size < count ==> {
                &&& batch[at + size].sender == batch[at].sender
                &&& batch[at + size].nonce == batch[at].nonce + 1
            }
        }),
{
    let size = nonces.len() as int;
    crate::ring::step(cursor, at, size);
    crate::ring::step(cursor, 0, size);
    let sender = crate::ring::position(cursor, at, size);
    if at < size {
        assert(at / size == 0) by (nonlinear_arith)
            requires
                0 <= at < size,
        ;
    }
    if at + size < count {
        crate::ring::visits_step(sender, cursor, at + size, size);
        vstd::arithmetic::div_mod::lemma_mod_add_multiples_vanish(cursor + at, size);
        assert(crate::ring::position(cursor, at + size, size) == sender);
        assert((at + size) / size == at / size + 1) by (nonlinear_arith)
            requires
                at >= 0,
                size > 0,
        ;
        crate::ring::visits_grow(sender, cursor, at + size + 1, count as int, size);
        assert(nonce_after(nonces, cursor, count as int, sender) <= u64::MAX);
        assert(nonces[sender] + (at / size + 1) <= u64::MAX);
    }
}

/// After a batch an account's next nonce is the one behind that of its last transfer, and an account
/// without a transfer keeps its own.
pub proof fn nonces_go_on_behind_batch(
    nonces: Seq<u64>,
    cursor: int,
    value: u64,
    count: nat,
    at: int,
)
    requires
        0 <= cursor < nonces.len(),
        nonces.len() <= usize::MAX,
        nonces_fit(nonces, cursor, count as int),
    ensures
        nonces_after(nonces, cursor, count as int).len() == nonces.len(),
        0 <= at < count && at + nonces.len() >= count ==> {
            let last = transfer_at(nonces, cursor, value, at);
            nonces_after(nonces, cursor, count as int)[last.sender as int] == last.nonce + 1
        },
        0 <= at < nonces.len() && (forall|k: int|
            0 <= k < count ==> #[trigger] crate::ring::position(cursor, k, nonces.len() as int)
                != at) ==> nonces_after(nonces, cursor, count as int)[at] == nonces[at],
{
    let size = nonces.len() as int;
    if 0 <= at < count && at + size >= count {
        let sender = crate::ring::position(cursor, at, size);
        crate::ring::step(cursor, at, size);
        crate::ring::visits_step(sender, cursor, at, size);
        no_visit_in_between(sender, cursor, at, count as int, size);
        assert(nonce_after(nonces, cursor, count as int, sender) <= u64::MAX);
    }
    if 0 <= at < size && (forall|k: int|
        0 <= k < count ==> #[trigger] crate::ring::position(cursor, k, size) != at) {
        never_visited(at, cursor, count as int, size);
    }
}

proof fn no_visit_in_between(account: int, cursor: int, at: int, count: int, size: int)
    requires
        0 <= cursor < size,
        0 <= at < count <= at + size,
        account == crate::ring::position(cursor, at, size),
    ensures
        crate::ring::visits(account, cursor, count, size) == crate::ring::visits(
            account,
            cursor,
            at + 1,
            size,
        ),
    decreases count - at,
{
    crate::ring::step(cursor, at, size);
    if count > at + 1 {
        no_visit_in_between(account, cursor, at, count - 1, size);
        crate::ring::visits_step(account, cursor, count - 1, size);
        let gap = count - 1 - at;
        assert(crate::ring::position(cursor, count - 1, size) != account) by {
            let whole = (cursor + at) / size;
            let rest = (cursor + at) % size;
            vstd::arithmetic::div_mod::lemma_fundamental_div_mod(cursor + at, size);
            vstd::arithmetic::div_mod::lemma_mod_bound(cursor + at, size);
            assert(size * whole == whole * size) by (nonlinear_arith);
            if rest + gap < size {
                vstd::arithmetic::div_mod::lemma_fundamental_div_mod_converse(
                    cursor + at + gap,
                    size,
                    whole,
                    rest + gap,
                );
            } else {
                assert((whole + 1) * size == whole * size + size) by (nonlinear_arith);
                vstd::arithmetic::div_mod::lemma_fundamental_div_mod_converse(
                    cursor + at + gap,
                    size,
                    whole + 1,
                    rest + gap - size,
                );
            }
        }
    }
}

proof fn never_visited(account: int, cursor: int, count: int, size: int)
    requires
        0 <= cursor < size,
        0 <= account < size,
        0 <= count,
        forall|k: int|
            0 <= k < count ==> #[trigger] crate::ring::position(cursor, k, size) != account,
    ensures
        crate::ring::visits(account, cursor, count, size) == 0,
    decreases count,
{
    if count > 0 {
        never_visited(account, cursor, count - 1, size);
        crate::ring::visits_step(account, cursor, count - 1, size);
        assert(crate::ring::position(cursor, count - 1, size) != account);
    } else {
        crate::ring::visits_step(account, cursor, 0, size);
    }
}

/// Two batches in a row: senders follow the ring from the cursor, each pays the sender after it, the
/// second batch goes on with whoever the first one paid last, and every sender of a first round signs
/// at its own next nonce. A sender that sends again in the second batch goes on behind its nonces in
/// the first.
pub proof fn batches_follow_the_ring(
    accounts: usize,
    value: u64,
    nonces: &mut Vec<u64>,
    cursor: &mut usize,
    count: usize,
    batch: Vec<Transfer>,
    nonces_later: &mut Vec<u64>,
    cursor_later: &mut usize,
    more: usize,
    following: Vec<Transfer>,
    at: int,
)
    requires
        old(nonces)@.len() == accounts,
        accounts > 1,
        count > 0,
        more > 0,
        *old(cursor) < accounts,
        nonces_fit(old(nonces)@, *old(cursor) as int, count as int),
        call_ensures(sign_batch, (accounts, value, nonces, cursor, count), batch),
        old(nonces_later)@ == final(nonces)@,
        *old(cursor_later) == *final(cursor),
        call_ensures(sign_batch, (accounts, value, nonces_later, cursor_later, more), following),
        0 <= at < count,
    ensures
        batch@.len() == count,
        batch@[0].sender == *old(cursor),
        batch@[at].value == value,
        at + 1 < count ==> batch@[at].recipient == batch@[at + 1].sender,
        at + 1 == count ==> batch@[at].recipient == following@[0].sender,
        batch@[at].recipient != batch@[at].sender,
        at < accounts ==> batch@[at].nonce == old(nonces)@[batch@[at].sender as int],
        at + accounts >= count ==> final(nonces)@[batch@[at].sender as int] == batch@[at].nonce + 1,
{
    let before = old(nonces)@;
    let start = *old(cursor) as int;
    let size = accounts as int;
    transfers_pay_the_next_sender(before, start, value, count as nat, at);
    nonces_go_on_behind_batch(before, start, value, count as nat, at);
    crate::ring::step(start, at, size);
    crate::ring::step(start, 0, size);
    crate::ring::step(*final(cursor) as int, 0, size);
}

} // verus!
