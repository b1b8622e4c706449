//! One crowdfunding round: admission while it waits, and a single
//! deadline-triggered resolution into a refund or a payout.
use vstd::prelude::*;

verus! {

/// Where an event stands. It only ever moves from `Waiting` to one of the
/// two final states.
#[derive(Clone, Copy, Debug, PartialEq, Eq, Structural)]
pub enum EventStatus {
    Waiting,
    Failed,
    Success,
}

/// The ways an operation on an event, or on the registry, can be refused.
#[derive(Clone, Copy, Debug, PartialEq, Eq, Structural)]
pub enum EscrowError {
    WrongDeposit,
    AlreadyJoined,
    EventFull,
    EventClosed,
    NotFound,
    InvalidSpec,
}

/// What a call to `resolve` came to.
#[derive(Clone, Copy, Debug, PartialEq, Eq, Structural)]
pub enum Outcome {
    /// The deadline has not been reached: nothing happened.
    TooEarly,
    /// The event was settled by an earlier call: nothing happened.
    AlreadyResolved,
    /// Too few joined: everyone is refunded.
    Failed,
    /// Enough joined: the beneficiary is paid.
    Success,
}

/// The terms an event is created with.
pub struct EventSpec {
    /// Most participants the event admits.
    pub max_num: u64,
    /// Fewest participants for the event to go ahead.
    pub min_num: u64,
    /// The exact amount each participant pays, in the smallest currency unit.
    pub price: u128,
    /// Time (in nanoseconds) from which the event may be resolved.
    pub deadline: u64,
    /// Who receives the funds if the event goes ahead.
    pub beneficiary: String,
}

/// An amount to be sent to a recipient.
pub struct Transfer {
    pub recipient: String,
    pub amount: u128,
}

/// The outcome of a resolution and the transfers it asks for, in order.
pub struct Resolution {
    pub outcome: Outcome,
    pub transfers: Vec<Transfer>,
}

pub struct Event {
    pub max_num: u64,
    pub min_num: u64,
    /// Participants in the order they joined; this is also the refund order.
    pub participants: Vec<String>,
    pub price: u128,
    pub deadline: u64,
    pub owner: String,
    pub beneficiary: String,
    pub status: EventStatus,
}

/// The identities held in a sequence of strings.
pub open spec fn ids_of(v: Seq<String>) -> Seq<Seq<char>> {
    v.map_values(|s: String| s@)
}

/// Transfers as (recipient, amount) pairs.
pub open spec fn transfer_views(v: Seq<Transfer>) -> Seq<(Seq<char>, u128)> {
    v.map_values(|t: Transfer| (t.recipient@, t.amount))
}

/// One transfer of `price` to each member, in order.
pub open spec fn refunds(members: Seq<Seq<char>>, price: u128) -> Seq<(Seq<char>, u128)> {
    members.map_values(|m: Seq<char>| (m, price))
}

/// The sum of the amounts of a list of transfers.
pub open spec fn total(s: Seq<(Seq<char>, u128)>) -> int
    decreases s.len(),
{
    if s.len() == 0 {
        0
    } else {
        total(s.drop_last()) + s.last().1
    }
}

/// The terms that make an event: `0 < min ≤ max`, a positive price, and room
/// in a `u128` for what a full event holds in escrow.
pub open spec fn spec_is_valid(spec: &EventSpec) -> bool {
    &&& 0 < spec.min_num <= spec.max_num
    &&& 0 < spec.price
    &&& spec.price as int * spec.max_num as int <= u128::MAX as int
}

impl EventSpec {
    pub fn new(max_num: u64, min_num: u64, price: u128, deadline: u64, beneficiary: String) -> (r:
        EventSpec)
        ensures
            r.max_num == max_num,
            r.min_num == min_num,
            r.price == price,
            r.deadline == deadline,
            r.beneficiary == beneficiary,
    {
        EventSpec { max_num, min_num, price, deadline, beneficiary }
    }
}

impl Clone for Event {
    fn clone(&self) -> (r: Event)
        ensures
            r.same_record(self),
    {
        let mut participants: Vec<String> = Vec::new();
        let mut i: usize = 0;
        while i < self.participants.len()
            invariant
                i <= self.participants@.len(),
                participants@ == self.participants@.take(i as int),
            decreases self.participants@.len() - i,
        {
            participants.push(self.participants[i].clone());
            proof {
                assert(participants@ =~= self.participants@.take(i + 1));
            }
            i += 1;
        }
        proof {
            assert(participants@ =~= self.participants@);
        }
        Event {
            max_num: self.max_num,
            min_num: self.min_num,
            participants,
            price: self.price,
            deadline: self.deadline,
            owner: self.owner.clone(),
            beneficiary: self.beneficiary.clone(),
            status: self.status,
        }
    }
}

impl Event {
    /// The identities of the participants, in join order.
    pub open spec fn members(&self) -> Seq<Seq<char>> {
        ids_of(self.participants@)
    }

    /// Valid terms, at most `max_num` participants, none twice.
    pub open spec fn wf(&self) -> bool {
        &&& 0 < self.min_num <= self.max_num
        &&& 0 < self.price
        &&& self.price as int * self.max_num as int <= u128::MAX as int
        &&& self.participants@.len() <= self.max_num
        &&& self.members().no_duplicates()
    }

    /// The funds the event holds: the price of every slot taken while it
    /// waits, nothing once it is settled.
    pub open spec fn escrowed(&self) -> int {
        if self.status == EventStatus::Waiting {
            self.price as int * self.participants@.len()
        } else {
            0
        }
    }

    /// Everything but the participants and the status.
    pub open spec fn same_terms(&self, other: &Event) -> bool {
        &&& self.max_num == other.max_num
        &&& self.min_num == other.min_num
        &&& self.price == other.price
        &&& self.deadline == other.deadline
        &&& self.owner == other.owner
        &&& self.beneficiary == other.beneficiary
    }

    /// The same terms, status and participants.
    pub open spec fn same_record(&self, other: &Event) -> bool {
        &&& self.same_terms(other)
        &&& self.status == other.status
        &&& self.participants@ == other.participants@
    }

    /// A new, empty, waiting event on the given terms.
    pub open spec fn fresh_from(&self, spec: &EventSpec, owner: String) -> bool {
        &&& self.max_num == spec.max_num
        &&& self.min_num == spec.min_num
        &&& self.price == spec.price
        &&& self.deadline == spec.deadline
        &&& self.beneficiary == spec.beneficiary
        &&& self.owner == owner
        &&& self.participants@.len() == 0
        &&& self.status == EventStatus::Waiting
    }

    /// What joining with `deposit` as `who` returns; the checks come in this order.
    pub open spec fn join_outcome(&self, deposit: u128, who: Seq<char>) -> Result<(), EscrowError> {
        if self.status != EventStatus::Waiting {
            Err(EscrowError::EventClosed)
        } else if deposit != self.price {
            Err(EscrowError::WrongDeposit)
        } else if self.members().contains(who) {
            Err(EscrowError::AlreadyJoined)
        } else if self.participants@.len() >= self.max_num {
            Err(EscrowError::EventFull)
        } else {
            Ok(())
        }
    }

    /// `post` is `pre` with `who` appended to its participants.
    pub open spec fn admitted(pre: &Event, post: &Event, who: String) -> bool {
        &&& post.participants@ == pre.participants@.push(who)
        &&& post.same_terms(pre)
        &&& post.status == pre.status
    }

    /// What resolving at time `now` comes to.
    pub open spec fn outcome_at(&self, now: u64) -> Outcome {
        if self.status != EventStatus::Waiting {
            Outcome::AlreadyResolved
        } else if now < self.deadline {
            Outcome::TooEarly
        } else if self.participants@.len() < self.min_num {
            Outcome::Failed
        } else {
            Outcome::Success
        }
    }

    /// The status after resolving at time `now`.
    pub open spec fn status_after(&self, now: u64) -> EventStatus {
        match self.outcome_at(now) {
            Outcome::Failed => EventStatus::Failed,
            Outcome::Success => EventStatus::Success,
            _ => self.status,
        }
    }

    /// The transfers that resolving at time `now` asks for.
    pub open spec fn settlement_at(&self, now: u64) -> Seq<(Seq<char>, u128)> {
        match self.outcome_at(now) {
            Outcome::Failed => refunds(self.members(), self.price),
            Outcome::Success => seq![
                (self.beneficiary@, (self.price * self.participants@.len()) as u128),
            ],
            _ => seq![],
        }
    }

    /// Opens an event on the given terms, or refuses terms that are not valid.
    pub fn new(spec: EventSpec, owner: String) -> (r: Result<Event, EscrowError>)
        ensures
            spec_is_valid(&spec) <==> r is Ok,
            !spec_is_valid(&spec) ==> r == Err::<Event, EscrowError>(EscrowError::InvalidSpec),
            r matches Ok(e) ==> e.wf() && e.fresh_from(&spec, owner),
    {
        if spec.min_num == 0 || spec.min_num > spec.max_num || spec.price == 0 {
            return Err(EscrowError::InvalidSpec);
        }
        if spec.price.checked_mul(spec.max_num as u128).is_none() {
            return Err(EscrowError::InvalidSpec);
        }
        let e = Event {
            max_num: spec.max_num,
            min_num: spec.min_num,
            participants: Vec::new(),
            price: spec.price,
            deadline: spec.deadline,
            owner,
            beneficiary: spec.beneficiary,
            status: EventStatus::Waiting,
        };
        proof {
            assert(e.members() =~= Seq::<Seq<char>>::empty());
        }
        Ok(e)
    }

    /// Admits `account_id` against a deposit of `deposit`. On any refusal the
    /// event is left as it was.
    pub fn join(&mut self, deposit: u128, account_id: &String) -> (r: Result<(), EscrowError>)
        requires
            old(self).wf(),
        ensures
            final(self).wf(),
            r == old(self).join_outcome(deposit, account_id@),
            r is Ok ==> Event::admitted(old(self), final(self), *account_id),
            r is Err ==> *final(self) == *old(self),
    {
        if self.status != EventStatus::Waiting {
            return Err(EscrowError::EventClosed);
        }
        if deposit != self.price {
            return Err(EscrowError::WrongDeposit);
        }
        let mut i: usize = 0;
        while i < self.participants.len()
            invariant
                *self == *old(self),
                self.wf(),
                self.status == EventStatus::Waiting,
                deposit == self.price,
                i <= self.participants@.len(),
                forall|k: int| 0 <= k < i ==> self.members()[k] != account_id@,
            decreases self.participants@.len() - i,
        {
            if self.participants[i] == *account_id {
                assert(self.members()[i as int] == account_id@);
                return Err(EscrowError::AlreadyJoined);
            }
            i += 1;
        }
        if self.participants.len() as u64 >= self.max_num {
            return Err(EscrowError::EventFull);
        }
        let ghost pre = self.participants@;
        self.participants.push(account_id.clone());
        proof {
            assert(ids_of(self.participants@) =~= ids_of(pre).push(account_id@));
        }
        Ok(())
    }

    /// Settles the event once its deadline has passed: refunds everyone when
    /// too few joined, else pays the beneficiary what was collected. Before the
    /// deadline, and after settlement, nothing changes.
    pub fn resolve(&mut self, now: u64) -> (r: Resolution)
        requires
            old(self).wf(),
        ensures
            final(self).wf(),
            r.outcome == old(self).outcome_at(now),
            transfer_views(r.transfers@) == old(self).settlement_at(now),
            final(self).status == old(self).status_after(now),
            final(self).participants == old(self).participants,
            final(self).same_terms(old(self)),
            (r.outcome == Outcome::TooEarly || r.outcome == Outcome::AlreadyResolved) ==> *final(self) == *old(self),
            (r.outcome == Outcome::Failed || r.outcome == Outcome::Success) ==> total(transfer_views(r.transfers@)) == old(self).escrowed(),
    {
        if self.status != EventStatus::Waiting {
            proof {
                assert(transfer_views(Seq::<Transfer>::empty()) =~= seq![]);
            }
            return Resolution { outcome: Outcome::AlreadyResolved, transfers: Vec::new() };
        }
        if now < self.deadline {
            proof {
                assert(transfer_views(Seq::<Transfer>::empty()) =~= seq![]);
            }
            return Resolution { outcome: Outcome::TooEarly, transfers: Vec::new() };
        }
        let n = self.participants.len();
        proof {
            lemma_escrow_fits(self);
        }
        if (n as u64) < self.min_num {
            self.status = EventStatus::Failed;
            let mut transfers: Vec<Transfer> = Vec::new();
            let mut i: usize = 0;
            while i < n
                invariant
                    n == self.participants@.len(),
                    i <= n,
                    transfers@.len() == i,
                    forall|k: int|
                        0 <= k < i ==> transfers@[k].recipient@ == self.members()[k]
                            && transfers@[k].amount == self.price,
                decreases n - i,
            {
                transfers.push(Transfer { recipient: self.participants[i].clone(), amount: self.price });
                i += 1;
            }
            proof {
                assert(transfer_views(transfers@) =~= refunds(self.members(), self.price));
                lemma_refunds_total(self.members(), self.price);
            }
            Resolution { outcome: Outcome::Failed, transfers }
        } else {
            self.status = EventStatus::Success;
            let amount = self.price * (n as u128);
            let mut transfers: Vec<Transfer> = Vec::new();
            transfers.push(Transfer { recipient: self.beneficiary.clone(), amount });
            proof {
                let s = transfer_views(transfers@);
                assert(s =~= seq![(self.beneficiary@, amount)]);
                assert(s.drop_last() =~= seq![]);
                assert(total(s.drop_last()) == 0);
                assert(total(s) == amount);
            }
            Resolution { outcome: Outcome::Success, transfers }
        }
    }
}

/// What a well-formed event holds in escrow fits in a `u128`.
proof fn lemma_escrow_fits(e: &Event)
    requires
        e.wf(),
    ensures
        e.price as int * e.participants@.len() <= e.price as int * e.max_num as int,
        e.price as int * e.participants@.len() <= u128::MAX as int,
{
    let p = e.price as int;
    let n = e.participants@.len() as int;
    let m = e.max_num as int;
    assert(p * n <= p * m) by (nonlinear_arith)
        requires
            0 <= p,
            0 <= n <= m,
    ;
}

/// Refunding `price` to each member disburses `price` times their number.
pub proof fn lemma_refunds_total(members: Seq<Seq<char>>, price: u128)
    ensures
        total(refunds(members, price)) == price as int * members.len(),
    decreases members.len(),
{
    if members.len() > 0 {
        let rest = members.drop_last();
        assert(refunds(members, price).drop_last() =~= refunds(rest, price));
        lemma_refunds_total(rest, price);
        assert(refunds(members, price).last().1 == price);
        let p = price as int;
        let n = members.len() as int;
        assert(p * (n - 1) + p == p * n) by (nonlinear_arith);
        assert(total(refunds(members, price)) == total(refunds(rest, price)) + price);
    } else {
        assert(refunds(members, price).len() == 0);
    }
}

/// A successful join keeps the participant count within capacity.
pub proof fn law_capacity_kept(pre: &Event, post: &Event, deposit: u128, who: String)
    requires
        pre.wf(),
        pre.join_outcome(deposit, who@) is Ok,
        Event::admitted(pre, post, who),
    ensures
        post.wf(),
        post.participants@.len() <= post.max_num,
{
    assert(post.members() =~= pre.members().push(who@));
}

/// Once an event is full, a further distinct joiner paying the price is
/// refused as `EventFull`.
pub proof fn law_full_event_refuses(e: &Event, who: Seq<char>)
    requires
        e.wf(),
        e.status == EventStatus::Waiting,
        e.participants@.len() == e.max_num,
        !e.members().contains(who),
    ensures
        e.join_outcome(e.price, who) == Err::<(), EscrowError>(EscrowError::EventFull),
{
}

/// After a successful join, joining again with the same identity is refused
/// as `AlreadyJoined`.
pub proof fn law_rejoin_refused(pre: &Event, post: &Event, deposit: u128, who: String)
    requires
        pre.join_outcome(deposit, who@) is Ok,
        Event::admitted(pre, post, who),
    ensures
        post.join_outcome(post.price, who@) == Err::<(), EscrowError>(EscrowError::AlreadyJoined),
{
    assert(post.members() =~= pre.members().push(who@));
    assert(post.members()[pre.participants@.len() as int] == who@);
}

/// While an event waits, any deposit other than its price is refused as
/// `WrongDeposit`.
pub proof fn law_exact_payment(e: &Event, deposit: u128, who: Seq<char>)
    requires
        e.status == EventStatus::Waiting,
        deposit != e.price,
    ensures
        e.join_outcome(deposit, who) == Err::<(), EscrowError>(EscrowError::WrongDeposit),
{
}

/// Two waiting events with the same number of participants, bounds and
/// deadline, resolved at any times at or after the deadline, settle the same
/// way, and into a final state.
pub proof fn law_resolution_determined(e1: &Event, e2: &Event, now1: u64, now2: u64)
    requires
        e1.status == EventStatus::Waiting,
        e2.status == EventStatus::Waiting,
        e1.participants@.len() == e2.participants@.len(),
        e1.min_num == e2.min_num,
        e1.max_num == e2.max_num,
        e1.deadline == e2.deadline,
        now1 >= e1.deadline,
        now2 >= e2.deadline,
    ensures
        e1.outcome_at(now1) == e2.outcome_at(now2),
        e1.status_after(now1) == e2.status_after(now2),
        e1.status_after(now1) != EventStatus::Waiting,
{
}

/// Once resolved, an event stays settled: every later resolution is a no-op
/// that asks for no transfer.
pub proof fn law_resolve_once(pre: &Event, post: &Event, now: u64, later: u64)
    requires
        now >= pre.deadline,
        post.status == pre.status_after(now),
    ensures
        post.outcome_at(later) == Outcome::AlreadyResolved,
        post.status_after(later) == post.status,
        post.settlement_at(later).len() == 0,
{
}

/// A resolution disburses exactly what the event collected, in both the
/// refund and the payout case.
pub proof fn law_fund_conservation(e: &Event, now: u64)
    requires
        e.wf(),
        e.status == EventStatus::Waiting,
        now >= e.deadline,
    ensures
        total(e.settlement_at(now)) == e.price as int * e.participants@.len(),
        total(e.settlement_at(now)) == e.escrowed(),
{
    lemma_escrow_fits(e);
    if e.outcome_at(now) == Outcome::Failed {
        lemma_refunds_total(e.members(), e.price);
    } else {
        let s = e.settlement_at(now);
        assert(s.drop_last() =~= seq![]);
        assert(total(s.drop_last()) == 0);
    }
}

/// Before its deadline a waiting event resolves to `TooEarly` and keeps
/// its status.
pub proof fn law_too_early(e: &Event, now: u64)
    requires
        e.status == EventStatus::Waiting,
        now < e.deadline,
    ensures
        e.outcome_at(now) == Outcome::TooEarly,
        e.status_after(now) == EventStatus::Waiting,
        e.settlement_at(now).len() == 0,
{
}

} // verus!
