//! The registry of events: creation with generated identifiers, admission and
//! resolution by identifier, and the read-side lookups by owner and by
//! participant.
use vstd::prelude::*;
use crate::event::{
    EscrowError, Event, EventSpec, Resolution, ids_of, spec_is_valid, transfer_views,
};

verus! {

/// The character of a decimal digit.
pub open spec fn digit_char(d: nat) -> char {
    if d == 0 { '0' }
    else if d == 1 { '1' }
    else if d == 2 { '2' }
    else if d == 3 { '3' }
    else if d == 4 { '4' }
    else if d == 5 { '5' }
    else if d == 6 { '6' }
    else if d == 7 { '7' }
    else if d == 8 { '8' }
    else { '9' }
}

/// `n` written in decimal, without sign or leading zeros.
pub open spec fn decimal(n: nat) -> Seq<char>
    decreases n,
{
    if n < 10 {
        seq![digit_char(n)]
    } else {
        decimal(n / 10).push(digit_char(n % 10))
    }
}

/// The identifier of the `n`-th event created: `event_<n>`.
pub open spec fn event_id_text(n: nat) -> Seq<char> {
    seq!['e', 'v', 'e', 'n', 't', '_'] + decimal(n)
}

/// Relies on std's `format!`: `{}` writes a `u64` in decimal, with no sign or
/// leading zeros.
#[verifier::external_body]
fn format_event_id(n: u64) -> (r: String)
    ensures
        r@ == event_id_text(n as nat),
{
    format!("event_{}", n)
}

/// All events, keyed by identifier, with a log of who joined which event.
pub struct Contract {
    /// Identifiers in creation order; `event_ids[i]` names `events[i]`.
    pub event_ids: Vec<String>,
    pub events: Vec<Event>,
    /// Each successful join, in order: the participant and the position of
    /// the event joined.
    pub participations: Vec<(String, usize)>,
}

impl Contract {
    pub open spec fn wf(&self) -> bool {
        &&& self.events@.len() == self.event_ids@.len()
        &&& forall|i: int|
            0 <= i < self.event_ids@.len() ==> #[trigger] self.event_ids@[i]@ == event_id_text(
                i as nat,
            )
        &&& forall|i: int| 0 <= i < self.events@.len() ==> #[trigger] self.events@[i].wf()
        &&& forall|k: int|
            0 <= k < self.participations@.len() ==> {
                let (who, at) = #[trigger] self.participations@[k];
                &&& at < self.events@.len()
                &&& self.events@[at as int].members().contains(who@)
            }
    }

    /// Some event is named `id`.
    pub open spec fn holds_id(&self, id: Seq<char>) -> bool {
        exists|i: int| 0 <= i < self.event_ids@.len() && #[trigger] self.event_ids@[i]@ == id
    }

    /// `i` is the first position named `id`.
    pub open spec fn has_id(&self, id: Seq<char>, i: int) -> bool {
        &&& 0 <= i < self.event_ids@.len()
        &&& self.event_ids@[i]@ == id
        &&& forall|j: int| 0 <= j < i ==> #[trigger] self.event_ids@[j]@ != id
    }

    /// Nothing observable differs between the two registries.
    pub open spec fn same_state(&self, other: &Contract) -> bool {
        &&& self.event_ids@ == other.event_ids@
        &&& self.events@ == other.events@
        &&& self.participations@ == other.participations@
    }

    /// Identifiers of the first `n` events owned by `who`, in creation order.
    pub open spec fn owned_by(&self, who: Seq<char>, n: int) -> Seq<Seq<char>>
        decreases n,
    {
        if n <= 0 {
            seq![]
        } else if self.events@[n - 1].owner@ == who {
            self.owned_by(who, n - 1).push(self.event_ids@[n - 1]@)
        } else {
            self.owned_by(who, n - 1)
        }
    }

    /// Identifiers of the events that `who` joined, over the first `n`
    /// entries of the join log, in join order.
    pub open spec fn joined_by(&self, who: Seq<char>, n: int) -> Seq<Seq<char>>
        decreases n,
    {
        if n <= 0 {
            seq![]
        } else if self.participations@[n - 1].0@ == who {
            self.joined_by(who, n - 1).push(
                self.event_ids@[self.participations@[n - 1].1 as int]@,
            )
        } else {
            self.joined_by(who, n - 1)
        }
    }

    /// An empty registry.
    pub fn new() -> (r: Contract)
        ensures
            r.wf(),
            r.event_ids@.len() == 0,
            r.events@.len() == 0,
            r.participations@.len() == 0,
    {
        Contract { event_ids: Vec::new(), events: Vec::new(), participations: Vec::new() }
    }

    /// The position of the first event named `event_id`, if any.
    fn find_event(&self, event_id: &String) -> (r: Option<usize>)
        ensures
            r matches Some(i) ==> self.has_id(event_id@, i as int),
            r is None ==> !self.holds_id(event_id@),
    {
        let mut i: usize = 0;
        while i < self.event_ids.len()
            invariant
                i <= self.event_ids@.len(),
                forall|j: int| 0 <= j < i ==> #[trigger] self.event_ids@[j]@ != event_id@,
            decreases self.event_ids@.len() - i,
        {
            if self.event_ids[i] == *event_id {
                return Some(i);
            }
            i += 1;
        }
        None
    }

    /// Creates an event owned by `account_id` on the given terms and returns
    /// its identifier, `event_<count>`, where count is the number of events
    /// created before it. Terms that are not valid are refused and change
    /// nothing.
    pub fn start_event(&mut self, account_id: String, event_spec: EventSpec) -> (r: Result<
        String,
        EscrowError,
    >)
        requires
            old(self).wf(),
        ensures
            final(self).wf(),
            spec_is_valid(&event_spec) <==> r is Ok,
            r is Err ==> r == Err::<String, EscrowError>(EscrowError::InvalidSpec),
            r is Err ==> final(self).same_state(old(self)),
            r matches Ok(id) ==> {
                &&& id@ == event_id_text(old(self).events@.len())
                &&& final(self).event_ids@ == old(self).event_ids@.push(id)
                &&& final(self).events@.len() == old(self).events@.len() + 1
                &&& final(self).events@.drop_last() == old(self).events@
                &&& final(self).events@.last().fresh_from(&event_spec, account_id)
                &&& final(self).participations@ == old(self).participations@
            },
    {
        match Event::new(event_spec, account_id) {
            Err(e) => Err(e),
            Ok(event) => {
                let count = self.events.len();
                let id = format_event_id(count as u64);
                let ghost old_events = self.events@;
                self.events.push(event);
                self.event_ids.push(id.clone());
                proof {
                    assert(self.events@.drop_last() =~= old_events);
                    assert forall|k: int| 0 <= k < self.participations@.len() implies {
                        let (who, at) = #[trigger] self.participations@[k];
                        &&& at < self.events@.len()
                        &&& self.events@[at as int].members().contains(who@)
                    } by {
                        let (who, at) = self.participations@[k];
                        assert(self.events@[at as int] == old_events[at as int]);
                    }
                }
                Ok(id)
            },
        }
    }

    /// Admits `account_id` to the event named `event_id` against a deposit of
    /// `deposit`, and records the join. Any refusal changes nothing.
    pub fn join(&mut self, event_id: String, account_id: String, deposit: u128) -> (r: Result<
        (),
        EscrowError,
    >)
        requires
            old(self).wf(),
        ensures
            final(self).wf(),
            !old(self).holds_id(event_id@) ==> r == Err::<(), EscrowError>(EscrowError::NotFound),
            forall|i: int| #[trigger]
                old(self).has_id(event_id@, i) ==> {
                    &&& r == old(self).events@[i].join_outcome(deposit, account_id@)
                    &&& r is Ok ==> {
                        &&& Event::admitted(&old(self).events@[i], &final(self).events@[i], account_id)
                        &&& final(self).events@ == old(self).events@.update(i, final(self).events@[i])
                        &&& final(self).event_ids@ == old(self).event_ids@
                        &&& final(self).participations@ == old(self).participations@.push(
                            (account_id, i as usize),
                        )
                    }
                },
            r is Err ==> final(self).same_state(old(self)),
    {
        match self.find_event(&event_id) {
            None => Err(EscrowError::NotFound),
            Some(i) => {
                let ghost old_events = self.events@;
                let r = self.events[i].join(deposit, &account_id);
                match r {
                    Err(e) => {
                        proof {
                            assert(self.events@ =~= old_events);
                        }
                        Err(e)
                    },
                    Ok(()) => {
                        let ghost old_log = self.participations@;
                        self.participations.push((account_id, i));
                        proof {
                            assert forall|k: int| 0 <= k < self.participations@.len() implies {
                                let (who, at) = #[trigger] self.participations@[k];
                                &&& at < self.events@.len()
                                &&& self.events@[at as int].members().contains(who@)
                            } by {
                                let (who, at) = self.participations@[k];
                                let post = self.events@[i as int];
                                assert(post.members() =~= old_events[i as int].members().push(
                                    account_id@,
                                ));
                                if k < old_log.len() {
                                    assert(old_log[k] == (who, at));
                                    if at != i {
                                        assert(self.events@[at as int] == old_events[at as int]);
                                    } else {
                                        let j = choose|j: int|
                                            0 <= j < old_events[i as int].members().len()
                                                && old_events[i as int].members()[j] == who@;
                                        assert(post.members()[j] == who@);
                                    }
                                } else {
                                    assert(post.members()[post.members().len() - 1] == who@);
                                }
                            }
                        }
                        Ok(())
                    },
                }
            },
        }
    }

    /// Resolves the event named `event_id` at time `now` (see
    /// `Event::resolve`) and hands back the transfers to make.
    pub fn claim(&mut self, event_id: String, now: u64) -> (r: Result<Resolution, EscrowError>)
        requires
            old(self).wf(),
        ensures
            final(self).wf(),
            final(self).event_ids@ == old(self).event_ids@,
            final(self).participations@ == old(self).participations@,
            !old(self).holds_id(event_id@) ==> r is Err && r->Err_0 == EscrowError::NotFound
                && final(self).same_state(old(self)),
            forall|i: int| #[trigger]
                old(self).has_id(event_id@, i) ==> {
                    let pre = old(self).events@[i];
                    let post = final(self).events@[i];
                    &&& r is Ok
                    &&& r->Ok_0.outcome == pre.outcome_at(now)
                    &&& transfer_views(r->Ok_0.transfers@) == pre.settlement_at(now)
                    &&& post.status == pre.status_after(now)
                    &&& post.participants == pre.participants
                    &&& post.same_terms(&pre)
                    &&& final(self).events@ == old(self).events@.update(i, post)
                },
    {
        match self.find_event(&event_id) {
            None => Err(EscrowError::NotFound),
            Some(i) => {
                let ghost old_events = self.events@;
                let res = self.events[i].resolve(now);
                proof {
                    assert forall|k: int| 0 <= k < self.participations@.len() implies {
                        let (who, at) = #[trigger] self.participations@[k];
                        &&& at < self.events@.len()
                        &&& self.events@[at as int].members().contains(who@)
                    } by {
                        let (who, at) = self.participations@[k];
                        if at != i {
                            assert(self.events@[at as int] == old_events[at as int]);
                        }
                    }
                }
                Ok(res)
            },
        }
    }

    /// Every identifier, in creation order.
    pub fn get_all_events(&self) -> (r: Vec<String>)
        ensures
            ids_of(r@) == ids_of(self.event_ids@),
    {
        let mut r: Vec<String> = Vec::new();
        let mut i: usize = 0;
        while i < self.event_ids.len()
            invariant
                i <= self.event_ids@.len(),
                ids_of(r@) == ids_of(self.event_ids@.take(i as int)),
            decreases self.event_ids@.len() - i,
        {
            let ghost before = r@;
            r.push(self.event_ids[i].clone());
            proof {
                assert(self.event_ids@.take(i + 1) =~= self.event_ids@.take(i as int).push(
                    self.event_ids@[i as int],
                ));
                assert(ids_of(r@) =~= ids_of(before).push(self.event_ids@[i as int]@));
                assert(ids_of(self.event_ids@.take(i + 1)) =~= ids_of(
                    self.event_ids@.take(i as int),
                ).push(self.event_ids@[i as int]@));
            }
            i += 1;
        }
        proof {
            assert(self.event_ids@.take(i as int) =~= self.event_ids@);
        }
        r
    }

    /// The identifiers of the events that `account_id` created, in creation
    /// order.
    pub fn get_events_by_owner(&self, account_id: String) -> (r: Vec<String>)
        requires
            self.wf(),
        ensures
            ids_of(r@) == self.owned_by(account_id@, self.events@.len() as int),
    {
        let mut r: Vec<String> = Vec::new();
        let mut i: usize = 0;
        while i < self.events.len()
            invariant
                self.wf(),
                i <= self.events@.len(),
                ids_of(r@) == self.owned_by(account_id@, i as int),
            decreases self.events@.len() - i,
        {
            if self.events[i].owner == account_id {
                let ghost before = r@;
                r.push(self.event_ids[i].clone());
                proof {
                    assert(ids_of(r@) =~= ids_of(before).push(self.event_ids@[i as int]@));
                }
            }
            i += 1;
        }
        r
    }

    /// The identifiers of the events that `account_id` joined, in join order.
    pub fn get_events_by_participants(&self, account_id: String) -> (r: Vec<String>)
        requires
            self.wf(),
        ensures
            ids_of(r@) == self.joined_by(account_id@, self.participations@.len() as int),
    {
        let mut r: Vec<String> = Vec::new();
        let mut k: usize = 0;
        while k < self.participations.len()
            invariant
                self.wf(),
                k <= self.participations@.len(),
                ids_of(r@) == self.joined_by(account_id@, k as int),
            decreases self.participations@.len() - k,
        {
            let entry = &self.participations[k];
            if entry.0 == account_id {
                let at = entry.1;
                assert(self.participations@[k as int] == *entry);
                let ghost before = r@;
                r.push(self.event_ids[at].clone());
                proof {
                    assert(ids_of(r@) =~= ids_of(before).push(self.event_ids@[at as int]@));
                }
            }
            k += 1;
        }
        r
    }

    /// A copy of the event named `event_id`, if there is one.
    pub fn get_event(&self, event_id: &String) -> (r: Option<Event>)
        requires
            self.wf(),
        ensures
            !self.holds_id(event_id@) ==> r is None,
            forall|i: int| #[trigger]
                self.has_id(event_id@, i) ==> {
                    &&& r is Some
                    &&& r->Some_0.same_record(&self.events@[i])
                },
    {
        match self.find_event(event_id) {
            None => None,
            Some(i) => Some(self.events[i].clone()),
        }
    }
}

impl Default for Contract {
    fn default() -> (r: Contract)
        ensures
            r.wf(),
            r.event_ids@.len() == 0,
            r.events@.len() == 0,
            r.participations@.len() == 0,
    {
        Contract::new()
    }
}

/// Different numbers are written differently in decimal.
proof fn lemma_decimal_injective(a: nat, b: nat)
    requires
        decimal(a) == decimal(b),
    ensures
        a == b,
    decreases a,
{
    if a >= 10 && b >= 10 {
        assert(decimal(a).last() == digit_char(a % 10));
        assert(decimal(b).last() == digit_char(b % 10));
        assert(decimal(a).drop_last() =~= decimal(a / 10));
        assert(decimal(b).drop_last() =~= decimal(b / 10));
        lemma_digit_char_injective(a % 10, b % 10);
        lemma_decimal_injective(a / 10, b / 10);
        assert(a == 10 * (a / 10) + a % 10);
        assert(b == 10 * (b / 10) + b % 10);
    } else if a >= 10 {
        assert(decimal(a).len() == decimal(a / 10).len() + 1);
        lemma_decimal_nonempty(a / 10);
    } else if b >= 10 {
        assert(decimal(b).len() == decimal(b / 10).len() + 1);
        lemma_decimal_nonempty(b / 10);
    } else {
        assert(decimal(a) == seq![digit_char(a)]);
        assert(decimal(b) == seq![digit_char(b)]);
        assert(decimal(a)[0] == digit_char(a));
        assert(decimal(b)[0] == digit_char(b));
        lemma_digit_char_injective(a, b);
    }
}

proof fn lemma_digit_char_injective(x: nat, y: nat)
    requires
        x < 10,
        y < 10,
        digit_char(x) == digit_char(y),
    ensures
        x == y,
{
}

proof fn lemma_decimal_nonempty(n: nat)
    ensures
        decimal(n).len() >= 1,
    decreases n,
{
    if n >= 10 {
        lemma_decimal_nonempty(n / 10);
    }
}

/// In a well-formed registry no two events share an identifier, so each
/// identifier names exactly one event.
pub proof fn law_ids_distinct(c: &Contract, i: int, j: int)
    requires
        c.wf(),
        0 <= i < c.event_ids@.len(),
        0 <= j < c.event_ids@.len(),
        i != j,
    ensures
        c.event_ids@[i]@ != c.event_ids@[j]@,
{
    if c.event_ids@[i]@ == c.event_ids@[j]@ {
        let a = event_id_text(i as nat);
        let b = event_id_text(j as nat);
        assert(a.subrange(6, a.len() as int) =~= decimal(i as nat));
        assert(b.subrange(6, b.len() as int) =~= decimal(j as nat));
        lemma_decimal_injective(i as nat, j as nat);
    }
}

} // verus!
