//! The limiter of the decoder: how many decodes may run at once,
//! and who goes next. The limiter only decides; running a decode, and waking
//! whoever waits for a slot, is for the caller.

use vstd::prelude::*;

verus! {

/// The slots of a limiter on a machine that reports `available` processing
/// units: that many, and one where it reports none.
pub open spec fn slots_for(available: Option<usize>) -> usize {
    match available {
        Some(n) if n > 0 => n,
        _ => 1,
    }
}

/// A limiter as a mathematical value.
pub struct LimiterView {
    /// How many decodes may run at once.
    pub capacity: nat,
    /// How many run now.
    pub running: nat,
    /// The most that ever ran at once.
    pub peak: nat,
    /// The tickets of those who wait, the one who waits longest first.
    pub waiting: Seq<u64>,
    /// How many tickets were handed out.
    pub issued: nat,
}

/// What happens at a limiter.
pub enum LimiterEvent {
    /// Somebody asks for a slot.
    Request,
    /// A decode that ran has ended.
    Release,
    /// The holder of a ticket stops waiting.
    Abandon(u64),
}

/// What a request is answered with.
#[derive(Clone, Copy, Debug, PartialEq, Eq, Structural)]
pub enum Admission {
    /// A slot was free: the decode may run now.
    Admitted,
    /// No slot was free: the decode runs when a release names this ticket.
    Queued(u64),
}

/// A limiter through which nobody has passed.
pub open spec fn fresh(capacity: nat) -> LimiterView {
    LimiterView { capacity, running: 0, peak: 0, waiting: Seq::empty(), issued: 0 }
}

/// Whether a request finds a free slot.
pub open spec fn admits(limiter: LimiterView) -> bool {
    limiter.running < limiter.capacity
}

/// The place of a ticket among those who wait, or their number where it
/// is not among them.
pub open spec fn place_of(waiting: Seq<u64>, ticket: u64) -> int
    decreases waiting.len(),
{
    if waiting.len() == 0 {
        0
    } else if waiting[0] == ticket {
        0
    } else {
        1 + place_of(waiting.drop_first(), ticket)
    }
}

/// The limiter after an event.
pub open spec fn after(limiter: LimiterView, event: LimiterEvent) -> LimiterView {
    match event {
        LimiterEvent::Request => if admits(limiter) {
            LimiterView {
                running: limiter.running + 1,
                peak: if limiter.peak > limiter.running {
                    limiter.peak
                } else {
                    limiter.running + 1
                },
                ..limiter
            }
        } else {
            LimiterView {
                waiting: limiter.waiting.push(limiter.issued as u64),
                issued: limiter.issued + 1,
                ..limiter
            }
        },
        LimiterEvent::Release => if limiter.running == 0 {
            limiter
        } else if limiter.waiting.len() > 0 {
            // The slot passes to the one who waited longest.
            LimiterView { waiting: limiter.waiting.drop_first(), ..limiter }
        } else {
            LimiterView { running: (limiter.running - 1) as nat, ..limiter }
        },
        LimiterEvent::Abandon(ticket) => {
            let place = place_of(limiter.waiting, ticket);
            if place < limiter.waiting.len() {
                LimiterView { waiting: limiter.waiting.remove(place), ..limiter }
            } else {
                limiter
            }
        },
    }
}

/// The limiter after a run of events.
pub open spec fn after_all(limiter: LimiterView, events: Seq<LimiterEvent>) -> LimiterView
    decreases events.len(),
{
    if events.len() == 0 {
        limiter
    } else {
        after(after_all(limiter, events.drop_last()), events.last())
    }
}

/// What holds of a limiter at all times: no more decodes run than it has
/// slots, nor ever did; nobody waits while a slot is free; and no ticket
/// waits twice.
pub open spec fn sound(limiter: LimiterView) -> bool {
    &&& 1 <= limiter.capacity
    &&& limiter.running <= limiter.peak <= limiter.capacity
    &&& limiter.waiting.len() > 0 ==> limiter.running == limiter.capacity
    &&& limiter.issued <= u64::MAX
    &&& forall|i: int|
        0 <= i < limiter.waiting.len() ==> (#[trigger] limiter.waiting[i]) < limiter.issued
    &&& forall|i: int, j: int|
        0 <= i < j < limiter.waiting.len() ==> limiter.waiting[i] != limiter.waiting[j]
}

proof fn lemma_place(waiting: Seq<u64>, ticket: u64)
    ensures
        0 <= place_of(waiting, ticket) <= waiting.len(),
        place_of(waiting, ticket) < waiting.len() ==> waiting[place_of(waiting, ticket)] == ticket,
        forall|i: int| 0 <= i < place_of(waiting, ticket) ==> waiting[i] != ticket,
    decreases waiting.len(),
{
    if waiting.len() > 0 && waiting[0] != ticket {
        let rest = waiting.drop_first();
        lemma_place(rest, ticket);
        assert forall|i: int| 0 <= i < place_of(waiting, ticket) implies waiting[i] != ticket by {
            if i > 0 {
                assert(rest[i - 1] == waiting[i]);
            }
        }
    }
}

/// No event makes a sound limiter unsound, as long as tickets last.
pub proof fn lemma_limiter_stays_sound(limiter: LimiterView, event: LimiterEvent)
    requires
        sound(limiter),
        limiter.issued < u64::MAX,
    ensures
        sound(after(limiter, event)),
{
    match event {
        LimiterEvent::Request => {},
        LimiterEvent::Release => lemma_release_sound(limiter),
        LimiterEvent::Abandon(ticket) => lemma_abandon_sound(limiter, ticket),
    }
}

proof fn lemma_release_sound(limiter: LimiterView)
    requires
        sound(limiter),
    ensures
        sound(after(limiter, LimiterEvent::Release)),
{
    let next = after(limiter, LimiterEvent::Release);
    if limiter.running > 0 && limiter.waiting.len() > 0 {
        assert forall|i: int| 0 <= i < next.waiting.len() implies (#[trigger] next.waiting[i])
            < next.issued by {
            assert(next.waiting[i] == limiter.waiting[i + 1]);
        }
    }
}

proof fn lemma_abandon_sound(limiter: LimiterView, ticket: u64)
    requires
        sound(limiter),
    ensures
        sound(after(limiter, LimiterEvent::Abandon(ticket))),
{
    let next = after(limiter, LimiterEvent::Abandon(ticket));
    lemma_place(limiter.waiting, ticket);
    let at = place_of(limiter.waiting, ticket);
    if at < limiter.waiting.len() {
        assert forall|i: int| 0 <= i < next.waiting.len() implies (#[trigger] next.waiting[i])
            < next.issued by {
            let i0 = if i < at { i } else { i + 1 };
            assert(next.waiting[i] == limiter.waiting[i0]);
        }
        assert forall|i: int, j: int| 0 <= i < j < next.waiting.len() implies next.waiting[i]
            != next.waiting[j] by {
            let i0 = if i < at { i } else { i + 1 };
            let j0 = if j < at { j } else { j + 1 };
            assert(next.waiting[i] == limiter.waiting[i0]);
            assert(next.waiting[j] == limiter.waiting[j0]);
        }
    }
}

/// The first place at which a ticket stands is its place.
proof fn lemma_place_is(waiting: Seq<u64>, ticket: u64, at: int)
    requires
        0 <= at <= waiting.len(),
        forall|i: int| 0 <= i < at ==> waiting[i] != ticket,
        at < waiting.len() ==> waiting[at] == ticket,
    ensures
        place_of(waiting, ticket) == at,
        waiting.contains(ticket) <==> at < waiting.len(),
{
    lemma_place(waiting, ticket);
    let p = place_of(waiting, ticket);
    if p < at {
        assert(waiting[p] != ticket);
    }
    if at < waiting.len() {
        assert(waiting.contains(ticket));
    }
    if waiting.contains(ticket) {
        let i = choose|i: int| 0 <= i < waiting.len() && waiting[i] == ticket;
        if at == waiting.len() {
            assert(waiting[i] != ticket);
        }
    }
}

/// Whatever happens at a limiter of `capacity` slots, and in whatever order,
/// no more than `capacity` decodes run at once, and the peak that the
/// limiter has counted is no more than that either.
pub proof fn lemma_never_over_capacity(capacity: nat, events: Seq<LimiterEvent>)
    requires
        capacity >= 1,
        events.len() < u64::MAX,
    ensures
        sound(after_all(fresh(capacity), events)),
        after_all(fresh(capacity), events).capacity == capacity,
        after_all(fresh(capacity), events).running <= capacity,
        after_all(fresh(capacity), events).peak <= capacity,
        after_all(fresh(capacity), events).issued <= events.len(),
    decreases events.len(),
{
    if events.len() > 0 {
        lemma_never_over_capacity(capacity, events.drop_last());
        lemma_limiter_stays_sound(after_all(fresh(capacity), events.drop_last()), events.last());
    }
}

/// The limiter of the decoder.
#[derive(Debug)]
pub struct Limiter {
    capacity: usize,
    running: usize,
    peak: usize,
    waiting: Vec<u64>,
    issued: u64,
}

impl View for Limiter {
    type V = LimiterView;

    closed spec fn view(&self) -> LimiterView {
        LimiterView {
            capacity: self.capacity as nat,
            running: self.running as nat,
            peak: self.peak as nat,
            waiting: self.waiting@,
            issued: self.issued as nat,
        }
    }
}

impl Limiter {
    #[verifier::type_invariant]
    spec fn well_formed(self) -> bool {
        sound(self@)
    }

    /// A limiter for a machine that reports `available` processing units.
    pub fn new(available: Option<usize>) -> (limiter: Self)
        ensures
            limiter@ == fresh(slots_for(available) as nat),
    {
        let capacity = match available {
            Some(n) if n > 0 => n,
            _ => 1,
        };
        Limiter { capacity, running: 0, peak: 0, waiting: Vec::new(), issued: 0 }
    }

    /// How many decodes may run at once.
    pub fn capacity(&self) -> (n: usize)
        ensures
            n == self@.capacity,
            n >= 1,
    {
        proof {
            use_type_invariant(self);
        }
        self.capacity
    }

    /// How many decodes run now: never more than the limiter has slots.
    pub fn running(&self) -> (n: usize)
        ensures
            n == self@.running,
            n <= self@.capacity,
    {
        proof {
            use_type_invariant(self);
        }
        self.running
    }

    /// The most decodes that ever ran at once: never more than the limiter
    /// has slots.
    pub fn peak(&self) -> (n: usize)
        ensures
            n == self@.peak,
            n <= self@.capacity,
    {
        proof {
            use_type_invariant(self);
        }
        self.peak
    }

    /// How many wait for a slot.
    pub fn waiting(&self) -> (n: usize)
        ensures
            n == self@.waiting.len(),
    {
        self.waiting.len()
    }

    /// Whether tickets are left to hand out.
    pub fn has_tickets(&self) -> (b: bool)
        ensures
            b == (self@.issued < u64::MAX),
    {
        self.issued < u64::MAX
    }

    /// Asks for a slot. Where one is free the decode may run; where none
    /// is, the caller gets a ticket and waits until a release names it.
    pub fn request(&mut self) -> (admission: Admission)
        requires
            old(self)@.issued < u64::MAX,
        ensures
            final(self)@ == after(old(self)@, LimiterEvent::Request),
            admission == if admits(old(self)@) {
                Admission::Admitted
            } else {
                Admission::Queued(old(self)@.issued as u64)
            },
    {
        proof {
            use_type_invariant(&*self);
            lemma_limiter_stays_sound(self@, LimiterEvent::Request);
        }
        if self.running < self.capacity {
            let running = self.running + 1;
            let peak = if self.peak > self.running {
                self.peak
            } else {
                running
            };
            *self = Limiter {
                capacity: self.capacity,
                running,
                peak,
                waiting: self.take_waiting(),
                issued: self.issued,
            };
            Admission::Admitted
        } else {
            let ticket = self.issued;
            let mut waiting = self.take_waiting();
            waiting.push(ticket);
            *self = Limiter {
                capacity: self.capacity,
                running: self.running,
                peak: self.peak,
                waiting,
                issued: ticket + 1,
            };
            Admission::Queued(ticket)
        }
    }

    /// A decode has ended. Its slot passes to the one who waited longest,
    /// whose ticket is returned and whose decode may run now; where nobody
    /// waits, the slot is free again. A release while nothing runs changes
    /// nothing.
    pub fn release(&mut self) -> (next: Option<u64>)
        ensures
            final(self)@ == after(old(self)@, LimiterEvent::Release),
            next == if old(self)@.running > 0 && old(self)@.waiting.len() > 0 {
                Some(old(self)@.waiting[0])
            } else {
                None
            },
    {
        proof {
            use_type_invariant(&*self);
            if self@.issued < u64::MAX {
                lemma_limiter_stays_sound(self@, LimiterEvent::Release);
            } else {
                lemma_release_sound(self@);
            }
        }
        if self.running == 0 {
            None
        } else if self.waiting.len() > 0 {
            let mut waiting = self.take_waiting();
            let ticket = waiting.remove(0);
            assert(waiting@ =~= old(self)@.waiting.drop_first());
            *self = Limiter {
                capacity: self.capacity,
                running: self.running,
                peak: self.peak,
                waiting,
                issued: self.issued,
            };
            Some(ticket)
        } else {
            *self = Limiter {
                capacity: self.capacity,
                running: self.running - 1,
                peak: self.peak,
                waiting: self.take_waiting(),
                issued: self.issued,
            };
            None
        }
    }

    /// The holder of `ticket` stops waiting. Returns whether the ticket
    /// was waiting at all.
    pub fn abandon(&mut self, ticket: u64) -> (was_waiting: bool)
        ensures
            final(self)@ == after(old(self)@, LimiterEvent::Abandon(ticket)),
            was_waiting == old(self)@.waiting.contains(ticket),
    {
        proof {
            use_type_invariant(&*self);
            lemma_place(self@.waiting, ticket);
            lemma_abandon_sound(self@, ticket);
        }
        let mut at: usize = 0;
        while at < self.waiting.len() && self.waiting[at] != ticket
            invariant
                at <= self.waiting@.len(),
                self.waiting@ == old(self).waiting@,
                *self == *old(self),
                forall|i: int| 0 <= i < at ==> self.waiting@[i] != ticket,
            decreases self.waiting@.len() - at,
        {
            at = at + 1;
        }
        proof {
            lemma_place_is(self@.waiting, ticket, at as int);
        }
        if at < self.waiting.len() {
            let mut waiting = self.take_waiting();
            let _ = waiting.remove(at);
            *self = Limiter {
                capacity: self.capacity,
                running: self.running,
                peak: self.peak,
                waiting,
                issued: self.issued,
            };
            true
        } else {
            false
        }
    }

    fn take_waiting(&mut self) -> (waiting: Vec<u64>)
        ensures
            waiting@ == old(self)@.waiting,
            final(self).capacity == old(self).capacity,
            final(self).running == old(self).running,
            final(self).peak == old(self).peak,
            final(self).issued == old(self).issued,
            final(self).waiting@.len() == 0,
    {
        proof {
            use_type_invariant(&*self);
        }
        let mut waiting = Vec::new();
        std::mem::swap(&mut waiting, &mut self.waiting);
        waiting
    }
}

} // verus!
