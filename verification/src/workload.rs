//! The synthetic workloads of the benchmark: which account sends each
//! transaction, with which sequence number, and the random choices the
//! transaction carries. Building and signing the transactions is left to the
//! caller.

use vstd::prelude::*;

verus! {

/// Calls `rand::Rng::gen_range(low, high)` on `rand::thread_rng()`: a value
/// drawn from `low` up to, but not including, `high` (the call panics unless
/// `low < high`). Which value is drawn is left open.
#[verifier::external_body]
fn random_in(low: u64, high: u64) -> (r: u64)
    requires
        low < high,
    ensures
        low <= r < high,
{
    rand::Rng::gen_range(&mut rand::thread_rng(), low, high)
}

/// How many of the first `k` transactions `a` sends.
pub open spec fn count_in(senders: Seq<usize>, k: int, a: int) -> nat
    decreases k,
{
    if k <= 0 {
        0
    } else {
        count_in(senders, k - 1, a) + if senders[k - 1] as int == a {
            1nat
        } else {
            0nat
        }
    }
}

/// The sequence numbers after the senders' transactions: each account's
/// number moved on by the transactions it sent.
pub open spec fn issued(start: Seq<u64>, senders: Seq<usize>) -> Seq<u64> {
    Seq::new(start.len(), |a: int| (start[a] + count_in(senders, senders.len() as int, a)) as u64)
}

/// The `k`-th transaction carries its sender's number moved on by the
/// transactions the sender sent before it.
pub open spec fn numbered_from(start: Seq<u64>, senders: Seq<usize>, seqs: Seq<u64>) -> bool {
    &&& seqs.len() == senders.len()
    &&& forall|k: int|
        0 <= k < senders.len() ==> #[trigger] seqs[k] == start[senders[k] as int] + count_in(
            senders,
            k,
            senders[k] as int,
        )
}

/// The current sequence number of each account.
pub struct SequenceBook {
    numbers: Vec<u64>,
}

impl View for SequenceBook {
    type V = Seq<u64>;

    closed spec fn view(&self) -> Seq<u64> {
        self.numbers@
    }
}

impl SequenceBook {
    /// A book with the accounts' current numbers.
    pub fn new(numbers: Vec<u64>) -> (r: SequenceBook)
        ensures
            r@ == numbers@,
    {
        SequenceBook { numbers }
    }

    /// How many accounts the book holds.
    pub fn len(&self) -> (r: usize)
        ensures
            r == self@.len(),
    {
        self.numbers.len()
    }

    /// The current number of account `a`.
    pub fn number(&self, a: usize) -> (r: u64)
        requires
            a < self@.len(),
        ensures
            r == self@[a as int],
    {
        self.numbers[a]
    }

    /// Hands out account `a`'s current number and moves it on by one.
    pub fn take(&mut self, a: usize) -> (r: u64)
        requires
            a < old(self)@.len(),
            old(self)@[a as int] < u64::MAX,
        ensures
            r == old(self)@[a as int],
            final(self)@ == old(self)@.update(a as int, (old(self)@[a as int] + 1) as u64),
    {
        let r = self.numbers[a];
        self.numbers.set(a, r + 1);
        r
    }
}

/// Issuing one more number keeps the book and the numbers in step.
proof fn lemma_issue_step(start: Seq<u64>, senders: Seq<usize>, seqs: Seq<u64>, s: usize)
    requires
        s < start.len(),
        numbered_from(start, senders, seqs),
        forall|a: int| 0 <= a < start.len() ==> start[a] + count_in(senders, senders.len() as int, a) < u64::MAX,
    ensures
        numbered_from(start, senders.push(s), seqs.push(issued(start, senders)[s as int])),
        issued(start, senders.push(s)) == issued(start, senders).update(
            s as int,
            (issued(start, senders)[s as int] + 1) as u64,
        ),
{
    let senders2 = senders.push(s);
    assert forall|k: int, a: int| 0 <= k <= senders.len() implies #[trigger] count_in(senders2, k, a)
        == count_in(senders, k, a) by {
        lemma_count_prefix(senders, senders2, k, a);
    }
    assert forall|a: int| #[trigger] count_in(senders2, senders2.len() as int, a) == count_in(
        senders,
        senders.len() as int,
        a,
    ) + if a == s as int {
        1nat
    } else {
        0nat
    } by {
        assert(count_in(senders2, senders.len() as int, a) == count_in(senders, senders.len() as int, a));
    }
    assert(issued(start, senders2) =~= issued(start, senders).update(
        s as int,
        (issued(start, senders)[s as int] + 1) as u64,
    ));
    let seqs2 = seqs.push(issued(start, senders)[s as int]);
    assert forall|k: int| 0 <= k < senders2.len() implies #[trigger] seqs2[k] == start[senders2[k] as int]
        + count_in(senders2, k, senders2[k] as int) by {
        if k < senders.len() {
            assert(seqs2[k] == seqs[k]);
            assert(senders2[k] == senders[k]);
        }
    }
}

/// Counting over a prefix that two sequences share gives the same count.
proof fn lemma_count_prefix(a: Seq<usize>, b: Seq<usize>, k: int, x: int)
    requires
        0 <= k <= a.len(),
        k <= b.len(),
        forall|i: int| 0 <= i < k ==> a[i] == b[i],
    ensures
        count_in(a, k, x) == count_in(b, k, x),
    decreases k,
{
    if k > 0 {
        lemma_count_prefix(a, b, k - 1, x);
    }
}

/// Counts never pass the number of transactions counted.
proof fn lemma_count_bounded(senders: Seq<usize>, k: int, a: int)
    requires
        0 <= k,
    ensures
        count_in(senders, k, a) <= k,
    decreases k,
{
    if k > 0 {
        lemma_count_bounded(senders, k - 1, a);
    }
}

/// No account's number is so large that `n` more transactions would pass
/// the largest `u64`.
pub open spec fn room_for(numbers: Seq<u64>, n: nat) -> bool {
    forall|a: int| 0 <= a < numbers.len() ==> #[trigger] numbers[a] + n < u64::MAX
}

/// With room for `n` transactions and fewer than `n` planned, every number
/// can move on once more.
proof fn issue_bounds(start: Seq<u64>, senders: Seq<usize>, n: nat)
    requires
        room_for(start, n),
        senders.len() < n,
    ensures
        forall|a: int| 0 <= a < start.len() ==> start[a] + count_in(senders, senders.len() as int, a) < u64::MAX,
        forall|a: int| 0 <= a < start.len() ==> #[trigger] issued(start, senders)[a] < u64::MAX,
{
    assert forall|a: int| 0 <= a < start.len() implies start[a] + count_in(senders, senders.len() as int, a) < u64::MAX by {
        lemma_count_bounded(senders, senders.len() as int, a);
        assert(start[a] + n < u64::MAX);
    }
}


/// A planned transaction: its sender, the sender's sequence number for it,
/// and what else it carries.
#[derive(Debug, Clone)]
pub struct Planned<P> {
    /// The sending account.
    pub sender: usize,
    /// The sender's sequence number for it.
    pub sequence_number: u64,
    /// What else the transaction carries.
    pub payload: P,
}

/// The senders of planned transactions.
pub open spec fn planned_senders<P>(v: Seq<Planned<P>>) -> Seq<usize> {
    v.map_values(|t: Planned<P>| t.sender)
}

/// The sequence numbers of planned transactions.
pub open spec fn planned_numbers<P>(v: Seq<Planned<P>>) -> Seq<u64> {
    v.map_values(|t: Planned<P>| t.sequence_number)
}

/// The plan so far is numbered from `start` and the book has moved on by it.
pub open spec fn in_step<P>(start: Seq<u64>, book: Seq<u64>, plan: Seq<Planned<P>>) -> bool {
    &&& numbered_from(start, planned_senders(plan), planned_numbers(plan))
    &&& book == issued(start, planned_senders(plan))
}

/// Adds a transaction of `sender` to the plan, with the sender's next number.
fn issue<P>(
    book: &mut SequenceBook,
    plan: &mut Vec<Planned<P>>,
    sender: usize,
    payload: P,
    Ghost(start): Ghost<Seq<u64>>,
    Ghost(n): Ghost<nat>,
)
    requires
        sender < start.len(),
        room_for(start, n),
        old(plan)@.len() < n,
        in_step(start, old(book)@, old(plan)@),
    ensures
        final(plan)@ == old(plan)@.push(
            Planned { sender, sequence_number: old(book)@[sender as int], payload },
        ),
        in_step(start, final(book)@, final(plan)@),
{
    proof {
        issue_bounds(start, planned_senders(plan@), n);
        assert(book@.len() == start.len());
    }
    let sequence_number = book.take(sender);
    let ghost before = plan@;
    plan.push(Planned { sender, sequence_number, payload });
    proof {
        lemma_issue_step(start, planned_senders(before), planned_numbers(before), sender);
        assert(planned_senders(plan@) =~= planned_senders(before).push(sender));
        assert(planned_numbers(plan@) =~= planned_numbers(before).push(sequence_number));
    }
}

/// A random account index below `n`.
fn random_account(n: usize) -> (r: usize)
    requires
        n > 0,
    ensures
        r < n,
{
    random_in(0, n as u64) as usize
}

/// Every planned sender is an account of the book.
pub open spec fn senders_within<P>(plan: Seq<Planned<P>>, n: nat) -> bool {
    forall|k: int| 0 <= k < plan.len() ==> #[trigger] plan[k].sender < n
}

/// Before anything is planned, the book is where it started.
proof fn lemma_nothing_planned<P>(start: Seq<u64>, plan: Seq<Planned<P>>)
    requires
        plan.len() == 0,
    ensures
        in_step(start, start, plan),
{
    assert(planned_senders(plan) =~= Seq::<usize>::empty());
    assert(planned_numbers(plan) =~= Seq::<u64>::empty());
    assert(issued(start, planned_senders(plan)) =~= start);
}

/// One transaction per chosen (sender, payload) pair, in order: each carries
/// its chosen sender and payload and the sender's next sequence number.
pub fn plan_from<P: Copy>(book: &mut SequenceBook, choices: &Vec<(usize, P)>) -> (r: Vec<Planned<P>>)
    requires
        forall|k: int| 0 <= k < choices@.len() ==> (#[trigger] choices@[k]).0 < old(book)@.len(),
        room_for(old(book)@, choices@.len()),
    ensures
        r@.len() == choices@.len(),
        forall|k: int|
            0 <= k < r@.len() ==> (#[trigger] r@[k]).sender == choices@[k].0 && r@[k].payload
                == choices@[k].1,
        in_step(old(book)@, final(book)@, r@),
{
    let ghost start = book@;
    let mut r: Vec<Planned<P>> = Vec::new();
    let mut i: usize = 0;
    proof {
        lemma_nothing_planned(start, r@);
    }
    while i < choices.len()
        invariant
            i <= choices@.len(),
            r@.len() == i,
            start.len() == book@.len(),
            forall|k: int| 0 <= k < choices@.len() ==> (#[trigger] choices@[k]).0 < start.len(),
            room_for(start, choices@.len()),
            in_step(start, book@, r@),
            forall|k: int|
                0 <= k < r@.len() ==> (#[trigger] r@[k]).sender == choices@[k].0 && r@[k].payload
                    == choices@[k].1,
        decreases choices@.len() - i,
    {
        let sender = choices[i].0;
        let payload = choices[i].1;
        proof {
            assert(choices@[i as int].0 < start.len());
        }
        issue(book, &mut r, sender, payload, Ghost(start), Ghost(choices@.len()));
        proof {
            issue_keeps_length(start, book@, r@);
        }
        i = i + 1;
    }
    r
}

/// The book keeps one number per account while in step.
proof fn issue_keeps_length<P>(start: Seq<u64>, book: Seq<u64>, plan: Seq<Planned<P>>)
    requires
        in_step(start, book, plan),
    ensures
        book.len() == start.len(),
{
}

/// One transaction from each of the accounts `lo` up to `hi`, in order: the
/// set-up transactions of the workloads (every account for the airdrop, the
/// forums for the ballots, the store account for the pixels and kitties).
pub fn plan_accounts(book: &mut SequenceBook, lo: usize, hi: usize) -> (r: Vec<Planned<()>>)
    requires
        lo <= hi <= old(book)@.len(),
        room_for(old(book)@, (hi - lo) as nat),
    ensures
        r@.len() == hi - lo,
        in_step(old(book)@, final(book)@, r@),
        forall|k: int| 0 <= k < r@.len() ==> (#[trigger] r@[k]).sender == lo + k,
{
    let ghost start = book@;
    let mut r: Vec<Planned<()>> = Vec::new();
    let mut i: usize = lo;
    proof {
        lemma_nothing_planned(start, r@);
    }
    while i < hi
        invariant
            lo <= i <= hi,
            hi <= start.len(),
            r@.len() == i - lo,
            room_for(start, (hi - lo) as nat),
            in_step(start, book@, r@),
            forall|k: int| 0 <= k < r@.len() ==> (#[trigger] r@[k]).sender == lo + k,
        decreases hi - i,
    {
        issue(book, &mut r, i, (), Ghost(start), Ghost((hi - lo) as nat));
        i = i + 1;
    }
    r
}

/// The draws of the airdrop transfers: each a random sender below `n`, then
/// five random receivers below `n`.
pub fn draw_airdrop(n: usize, count: usize) -> (r: Vec<(usize, [usize; 5])>)
    requires
        count > 0 ==> n > 0,
    ensures
        r@.len() == count,
        forall|k: int|
            0 <= k < r@.len() ==> (#[trigger] r@[k]).0 < n && forall|j: int|
                0 <= j < 5 ==> r@[k].1@[j] < n,
{
    let mut r: Vec<(usize, [usize; 5])> = Vec::new();
    let mut i: usize = 0;
    while i < count
        invariant
            i <= count,
            r@.len() == i,
            count > 0 ==> n > 0,
            forall|k: int|
                0 <= k < r@.len() ==> (#[trigger] r@[k]).0 < n && forall|j: int|
                    0 <= j < 5 ==> r@[k].1@[j] < n,
        decreases count - i,
    {
        let sender = random_account(n);
        let a = random_account(n);
        let b = random_account(n);
        let c = random_account(n);
        let d = random_account(n);
        let e = random_account(n);
        let receivers = [a, b, c, d, e];
        assert(forall|j: int| 0 <= j < 5 ==> receivers@[j] < n) by {
            assert(receivers@ =~= seq![a, b, c, d, e]);
        }
        r.push((sender, receivers));
        i = i + 1;
    }
    r
}

/// The airdrop transfers: each from a random account to five random
/// accounts (the sender drawn first).
pub fn plan_airdrop_transfers(book: &mut SequenceBook, count: usize) -> (r: Vec<Planned<[usize; 5]>>)
    requires
        count > 0 ==> old(book)@.len() > 0,
        room_for(old(book)@, count as nat),
    ensures
        r@.len() == count,
        in_step(old(book)@, final(book)@, r@),
        senders_within(r@, old(book)@.len()),
        forall|k: int|
            0 <= k < r@.len() ==> forall|j: int|
                0 <= j < 5 ==> (#[trigger] r@[k]).payload@[j] < old(book)@.len(),
{
    let draws = draw_airdrop(book.len(), count);
    plan_from(book, &draws)
}

/// A vote: the forum account it goes to and the proposal it picks.
#[derive(Debug, Clone, Copy, PartialEq, Eq, Structural)]
pub struct VoteChoice {
    /// The account that holds the ballot.
    pub forum: usize,
    /// The proposal voted for, below three.
    pub proposal: u64,
}

/// The draws of the ballot's votes: each a random proposal of three, then a
/// random voter among the accounts after the forum (account 0), whose vote
/// goes to that forum.
pub fn draw_votes(n: usize, count: usize) -> (r: Vec<(usize, VoteChoice)>)
    requires
        count > 0 ==> n >= 2,
    ensures
        r@.len() == count,
        forall|k: int|
            0 <= k < r@.len() ==> 1 <= (#[trigger] r@[k]).0 < n && r@[k].1.forum == 0
                && r@[k].1.proposal < 3,
{
    let mut r: Vec<(usize, VoteChoice)> = Vec::new();
    let mut i: usize = 0;
    while i < count
        invariant
            i <= count,
            r@.len() == i,
            count > 0 ==> n >= 2,
            forall|k: int|
                0 <= k < r@.len() ==> 1 <= (#[trigger] r@[k]).0 < n && r@[k].1.forum == 0
                    && r@[k].1.proposal < 3,
        decreases count - i,
    {
        let proposal = random_in(0, 3);
        let voter = 1 + random_account(n - 1);
        r.push((voter, VoteChoice { forum: 0, proposal }));
        i = i + 1;
    }
    r
}

/// The votes of the ballot: each picks a random proposal of three, then a
/// random voter among the accounts after the forum (account 0).
pub fn plan_ballot_votes(book: &mut SequenceBook, count: usize) -> (r: Vec<Planned<VoteChoice>>)
    requires
        old(book)@.len() >= 1,
        count > 0 ==> old(book)@.len() >= 2,
        room_for(old(book)@, count as nat),
    ensures
        r@.len() == count,
        in_step(old(book)@, final(book)@, r@),
        forall|k: int|
            0 <= k < r@.len() ==> 1 <= (#[trigger] r@[k]).sender < old(book)@.len() && r@[k].payload.forum
                == 0 && r@[k].payload.proposal < 3,
{
    let draws = draw_votes(book.len(), count);
    plan_from(book, &draws)
}

/// The draws of the sharded ballot's votes: each a random proposal of
/// three, then a random voter among the accounts from `shards` up to `n`.
pub fn draw_sharded_votes(n: usize, count: usize, shards: usize) -> (r: Vec<(u64, usize)>)
    requires
        count > 0 ==> shards < n,
    ensures
        r@.len() == count,
        forall|k: int| 0 <= k < r@.len() ==> (#[trigger] r@[k]).0 < 3 && shards <= r@[k].1 < n,
{
    let mut r: Vec<(u64, usize)> = Vec::new();
    let mut i: usize = 0;
    while i < count
        invariant
            i <= count,
            r@.len() == i,
            count > 0 ==> shards < n,
            forall|k: int| 0 <= k < r@.len() ==> (#[trigger] r@[k]).0 < 3 && shards <= r@[k].1 < n,
        decreases count - i,
    {
        let proposal = random_in(0, 3);
        let voter = shards + random_account(n - shards);
        r.push((proposal, voter));
        i = i + 1;
    }
    r
}

/// The forum a voter's vote goes to: the last byte of its address modulo the
/// number of shards taken as a byte.
pub open spec fn forum_of(last_byte: u8, shards: usize) -> usize {
    (last_byte % (shards as u8)) as usize
}

/// The (voter, vote) pairs of drawn (proposal, voter) pairs: each vote goes
/// to the forum its voter's address selects.
pub fn sharded_vote_choices(draws: &Vec<(u64, usize)>, shards: usize, address_last_bytes: &Vec<u8>) -> (r:
    Vec<(usize, VoteChoice)>)
    requires
        draws@.len() > 0 ==> (shards as u8) != 0,
        forall|k: int| 0 <= k < draws@.len() ==> (#[trigger] draws@[k]).1 < address_last_bytes@.len(),
    ensures
        r@.len() == draws@.len(),
        forall|k: int|
            0 <= k < r@.len() ==> (#[trigger] r@[k]).0 == draws@[k].1 && r@[k].1.proposal
                == draws@[k].0 && r@[k].1.forum == forum_of(address_last_bytes@[draws@[k].1 as int], shards),
{
    let mut r: Vec<(usize, VoteChoice)> = Vec::new();
    let mut i: usize = 0;
    while i < draws.len()
        invariant
            i <= draws@.len(),
            r@.len() == i,
            draws@.len() > 0 ==> (shards as u8) != 0,
            forall|k: int| 0 <= k < draws@.len() ==> (#[trigger] draws@[k]).1 < address_last_bytes@.len(),
            forall|k: int|
                0 <= k < r@.len() ==> (#[trigger] r@[k]).0 == draws@[k].1 && r@[k].1.proposal
                    == draws@[k].0 && r@[k].1.forum == forum_of(address_last_bytes@[draws@[k].1 as int], shards),
        decreases draws@.len() - i,
    {
        let (proposal, voter) = draws[i];
        proof {
            assert(draws@[i as int].1 < address_last_bytes@.len());
        }
        let divisor = #[verifier::truncate] (shards as u8);
        let forum = (address_last_bytes[voter] % divisor) as usize;
        r.push((voter, VoteChoice { forum, proposal }));
        i = i + 1;
    }
    r
}

/// The votes of the sharded ballot: each picks a random proposal of three,
/// then a random voter among the accounts after the `shards` forums; the
/// voter's forum is the last byte of its address modulo the number of shards
/// taken as a byte.
pub fn plan_sharded_votes(
    book: &mut SequenceBook,
    count: usize,
    shards: usize,
    address_last_bytes: &Vec<u8>,
) -> (r: Vec<Planned<VoteChoice>>)
    requires
        shards <= old(book)@.len(),
        address_last_bytes@.len() == old(book)@.len(),
        count > 0 ==> shards < old(book)@.len() && (shards as u8) != 0,
        room_for(old(book)@, count as nat),
    ensures
        r@.len() == count,
        in_step(old(book)@, final(book)@, r@),
        forall|k: int|
            0 <= k < r@.len() ==> shards <= (#[trigger] r@[k]).sender < old(book)@.len()
                && r@[k].payload.forum == forum_of(address_last_bytes@[r@[k].sender as int], shards)
                && r@[k].payload.forum < shards && r@[k].payload.proposal < 3,
{
    let draws = draw_sharded_votes(book.len(), count, shards);
    let choices = sharded_vote_choices(&draws, shards, address_last_bytes);
    let r = plan_from(book, &choices);
    proof {
        assert forall|k: int| 0 <= k < r@.len() implies (#[trigger] r@[k]).payload.forum < shards by {
            let b = address_last_bytes@[r@[k].sender as int];
            assert((b % (shards as u8)) < (shards as u8)) by (bit_vector)
                requires
                    (shards as u8) != 0u8,
            ;
            assert((shards as u8) as int <= shards as int) by (bit_vector);
        }
    }
    r
}

/// A pixel to occupy.
#[derive(Debug, Clone, Copy, PartialEq, Eq, Structural)]
pub struct Pixel {
    /// The column, below 100.
    pub x: u64,
    /// The row, below 100.
    pub y: u64,
}

/// The draws of the pixel occupations: each a random pixel (column, then
/// row), then a random sender among the accounts after the store (account 0).
pub fn draw_pixels(n: usize, count: usize) -> (r: Vec<(usize, Pixel)>)
    requires
        count > 0 ==> n >= 2,
    ensures
        r@.len() == count,
        forall|k: int|
            0 <= k < r@.len() ==> 1 <= (#[trigger] r@[k]).0 < n && r@[k].1.x < 100 && r@[k].1.y < 100,
{
    let mut r: Vec<(usize, Pixel)> = Vec::new();
    let mut i: usize = 0;
    while i < count
        invariant
            i <= count,
            r@.len() == i,
            count > 0 ==> n >= 2,
            forall|k: int|
                0 <= k < r@.len() ==> 1 <= (#[trigger] r@[k]).0 < n && r@[k].1.x < 100 && r@[k].1.y
                    < 100,
        decreases count - i,
    {
        let x = random_in(0, 100);
        let y = random_in(0, 100);
        let sender = 1 + random_account(n - 1);
        r.push((sender, Pixel { x, y }));
        i = i + 1;
    }
    r
}

/// The pixel occupations: each a random pixel (column, then row), then a
/// random sender among the accounts after the store (account 0).
pub fn plan_pixel_occupations(book: &mut SequenceBook, count: usize) -> (r: Vec<Planned<Pixel>>)
    requires
        old(book)@.len() >= 1,
        count > 0 ==> old(book)@.len() >= 2,
        room_for(old(book)@, count as nat),
    ensures
        r@.len() == count,
        in_step(old(book)@, final(book)@, r@),
        forall|k: int|
            0 <= k < r@.len() ==> 1 <= (#[trigger] r@[k]).sender < old(book)@.len() && r@[k].payload.x < 100
                && r@[k].payload.y < 100,
{
    let draws = draw_pixels(book.len(), count);
    plan_from(book, &draws)
}

/// The largest gene value a minted kitty may get, exclusive.
pub const GENE_LIMIT: u64 = 4294967295;

/// A kitty to mint.
#[derive(Debug, Clone, Copy, PartialEq, Eq, Structural)]
pub struct Mint {
    /// The kitty's genes, below `GENE_LIMIT`.
    pub genes: u64,
    /// Whether this is the minting round that comes first.
    pub first_round: bool,
}

/// The genes of one minting round: one random value below `GENE_LIMIT` for
/// each of `count` kitties.
pub fn draw_genes(count: usize) -> (r: Vec<u64>)
    ensures
        r@.len() == count,
        forall|k: int| 0 <= k < r@.len() ==> #[trigger] r@[k] < GENE_LIMIT,
{
    let mut r: Vec<u64> = Vec::new();
    let mut i: usize = 0;
    while i < count
        invariant
            i <= count,
            r@.len() == i,
            forall|k: int| 0 <= k < r@.len() ==> #[trigger] r@[k] < GENE_LIMIT,
        decreases count - i,
    {
        r.push(random_in(0, GENE_LIMIT));
        i = i + 1;
    }
    r
}

/// The mints of one round: the `k`-th genes go to account `k + 1`, the
/// accounts after the store.
pub fn mint_choices(genes: &Vec<u64>, first_round: bool) -> (r: Vec<(usize, Mint)>)
    ensures
        r@.len() == genes@.len(),
        forall|k: int|
            0 <= k < r@.len() ==> (#[trigger] r@[k]).0 == k + 1 && r@[k].1.genes == genes@[k]
                && r@[k].1.first_round == first_round,
{
    let mut r: Vec<(usize, Mint)> = Vec::new();
    let mut i: usize = 0;
    while i < genes.len()
        invariant
            i <= genes@.len(),
            r@.len() == i,
            forall|k: int|
                0 <= k < r@.len() ==> (#[trigger] r@[k]).0 == k + 1 && r@[k].1.genes == genes@[k]
                    && r@[k].1.first_round == first_round,
        decreases genes@.len() - i,
    {
        r.push((i + 1, Mint { genes: genes[i], first_round }));
        i = i + 1;
    }
    r
}

/// One minting round: a kitty with random genes for each account after the
/// store (account 0), in order.
pub fn plan_kitty_mints(book: &mut SequenceBook, first_round: bool) -> (r: Vec<Planned<Mint>>)
    requires
        old(book)@.len() >= 1,
        room_for(old(book)@, (old(book)@.len() - 1) as nat),
    ensures
        r@.len() == old(book)@.len() - 1,
        in_step(old(book)@, final(book)@, r@),
        forall|k: int|
            0 <= k < r@.len() ==> (#[trigger] r@[k]).sender == k + 1 && r@[k].payload.genes < GENE_LIMIT
                && r@[k].payload.first_round == first_round,
{
    let genes = draw_genes(book.len() - 1);
    let choices = mint_choices(&genes, first_round);
    plan_from(book, &choices)
}

/// The two parents of a kitty to breed.
#[derive(Debug, Clone, Copy, PartialEq, Eq, Structural)]
pub struct Parents {
    /// The first parent, among the kitties of the first minting round.
    pub first: u64,
    /// The second parent, among the kitties of the second round.
    pub second: u64,
}

/// The draws of the breedings: with `m = n - 1` accounts after the store
/// (account 0), each a random kitty below `m`, one from `m` up to `2m`, then
/// a random sender among the accounts after the store.
pub fn draw_breeds(n: usize, count: usize) -> (r: Vec<(usize, Parents)>)
    requires
        n >= 1,
        count > 0 ==> n >= 2,
        2 * n <= u64::MAX,
    ensures
        r@.len() == count,
        forall|k: int|
            0 <= k < r@.len() ==> 1 <= (#[trigger] r@[k]).0 < n && r@[k].1.first < n - 1 && n - 1
                <= r@[k].1.second < 2 * (n - 1),
{
    let m = n - 1;
    let mut r: Vec<(usize, Parents)> = Vec::new();
    let mut i: usize = 0;
    while i < count
        invariant
            i <= count,
            r@.len() == i,
            m == n - 1,
            n >= 1,
            2 * n <= u64::MAX,
            count > 0 ==> n >= 2,
            forall|k: int|
                0 <= k < r@.len() ==> 1 <= (#[trigger] r@[k]).0 < n && r@[k].1.first < m && m
                    <= r@[k].1.second < 2 * m,
        decreases count - i,
    {
        let first = random_in(0, m as u64);
        let second = random_in(m as u64, 2 * (m as u64));
        let sender = 1 + random_account(m);
        r.push((sender, Parents { first, second }));
        i = i + 1;
    }
    r
}

/// The breedings: with `m` accounts after the store (account 0), each picks a
/// random kitty below `m`, one from `m` up to `2m`, then a random sender
/// among the accounts after the store.
pub fn plan_kitty_breeds(book: &mut SequenceBook, count: usize) -> (r: Vec<Planned<Parents>>)
    requires
        old(book)@.len() >= 1,
        count > 0 ==> old(book)@.len() >= 2,
        2 * old(book)@.len() <= u64::MAX,
        room_for(old(book)@, count as nat),
    ensures
        r@.len() == count,
        in_step(old(book)@, final(book)@, r@),
        forall|k: int|
            0 <= k < r@.len() ==> 1 <= (#[trigger] r@[k]).sender < old(book)@.len()
                && r@[k].payload.first < old(book)@.len() - 1 && old(book)@.len() - 1
                <= r@[k].payload.second < 2 * (old(book)@.len() - 1),
{
    let draws = draw_breeds(book.len(), count);
    plan_from(book, &draws)
}

/// The draws of the empty transactions: each a random sender below `n`.
pub fn draw_senders(n: usize, count: usize) -> (r: Vec<(usize, ())>)
    requires
        count > 0 ==> n > 0,
    ensures
        r@.len() == count,
        forall|k: int| 0 <= k < r@.len() ==> (#[trigger] r@[k]).0 < n,
{
    let mut r: Vec<(usize, ())> = Vec::new();
    let mut i: usize = 0;
    while i < count
        invariant
            i <= count,
            r@.len() == i,
            count > 0 ==> n > 0,
            forall|k: int| 0 <= k < r@.len() ==> (#[trigger] r@[k]).0 < n,
        decreases count - i,
    {
        r.push((random_account(n), ()));
        i = i + 1;
    }
    r
}

/// The empty transactions: each from a random account.
pub fn plan_empty(book: &mut SequenceBook, count: usize) -> (r: Vec<Planned<()>>)
    requires
        count > 0 ==> old(book)@.len() > 0,
        room_for(old(book)@, count as nat),
    ensures
        r@.len() == count,
        in_step(old(book)@, final(book)@, r@),
        senders_within(r@, old(book)@.len()),
{
    let draws = draw_senders(book.len(), count);
    plan_from(book, &draws)
}

/// A sender's transactions in a plan carry consecutive sequence numbers: of
/// two of them, the later one's number is the earlier one's plus the
/// sender's transactions from the earlier one on.
pub proof fn lemma_plan_numbers_consecutive<P>(
    start: Seq<u64>,
    book: Seq<u64>,
    plan: Seq<Planned<P>>,
    i: int,
    j: int,
)
    requires
        in_step(start, book, plan),
        0 <= i < j < plan.len(),
        plan[i].sender == plan[j].sender,
    ensures
        plan[j].sequence_number == plan[i].sequence_number + count_in(
            planned_senders(plan),
            j,
            plan[i].sender as int,
        ) - count_in(planned_senders(plan), i, plan[i].sender as int),
        plan[j].sequence_number > plan[i].sequence_number,
{
    let ss = planned_senders(plan);
    let ns = planned_numbers(plan);
    assert(ns[i] == start[ss[i] as int] + count_in(ss, i, ss[i] as int));
    assert(ns[j] == start[ss[j] as int] + count_in(ss, j, ss[j] as int));
    lemma_count_grows(ss, i + 1, j, ss[i] as int);
}

/// Counting over a longer prefix counts no fewer.
proof fn lemma_count_grows(senders: Seq<usize>, a: int, b: int, x: int)
    requires
        0 <= a <= b,
    ensures
        count_in(senders, a, x) <= count_in(senders, b, x),
    decreases b - a,
{
    if a < b {
        lemma_count_grows(senders, a, b - 1, x);
    }
}

/// After a plan, each account's number has moved on by exactly the
/// transactions it sends in the plan.
pub proof fn lemma_plan_moves_book<P>(start: Seq<u64>, book: Seq<u64>, plan: Seq<Planned<P>>, a: int)
    requires
        in_step(start, book, plan),
        0 <= a < start.len(),
    ensures
        book[a] == (start[a] + count_in(planned_senders(plan), plan.len() as int, a)) as u64,
{
}

/// Whether every account's number leaves room for `n` more transactions.
pub fn room_for_plan(book: &SequenceBook, n: usize) -> (r: bool)
    ensures
        r == room_for(book@, n as nat),
{
    let mut a: usize = 0;
    while a < book.len()
        invariant
            a <= book@.len(),
            forall|b: int| 0 <= b < a ==> #[trigger] book@[b] + n < u64::MAX,
        decreases book@.len() - a,
    {
        let v = book.number(a);
        if v as u128 + n as u128 >= u64::MAX as u128 {
            return false;
        }
        a = a + 1;
    }
    true
}
} // verus!
