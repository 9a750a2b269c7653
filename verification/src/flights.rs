//! Shared work: whoever asks for what is already under way waits for it, and gets what it
//! comes to.
//!
//! Each ask is a call with a number of its own. Of the calls for the same key one leads:
//! it does the work, and the others wait. When the work ends, every waiting call is handed
//! its outcome. When the leading call is given up, a waiting one takes its place.

use std::sync::Arc;
use vstd::prelude::*;
use crate::text;

verus! {

/// Where a call stands.
#[derive(Debug)]
pub enum Phase<T> {
    /// It waits for the work of another call, or for its turn.
    Waiting,
    /// It does the work.
    Leading,
    /// The work it waited for came to this.
    Answered(Result<Arc<T>, String>),
}

/// What a call does next.
#[derive(Debug)]
pub enum Turn<T> {
    /// It does the work.
    Lead,
    /// It waits.
    Wait,
    /// It returns this.
    Take(Result<Arc<T>, String>),
}

/// A call for the work that a key stands for.
#[derive(Debug)]
pub struct Call<T> {
    number: u64,
    key: String,
    phase: Phase<T>,
}

/// The calls that did not return yet.
#[derive(Debug)]
pub struct FlightTable<T> {
    calls: Vec<Call<T>>,
    next: u64,
}

/// A call.
pub struct CallView<T> {
    pub number: int,
    pub key: Seq<char>,
    pub phase: Phase<T>,
}

/// The calls that did not return yet, and the number that the next call gets.
pub struct FlightsView<T> {
    pub calls: Seq<CallView<T>>,
    pub next: int,
}

impl<T> View for Call<T> {
    type V = CallView<T>;

    closed spec fn view(&self) -> CallView<T> {
        CallView { number: self.number as int, key: self.key@, phase: self.phase }
    }
}

impl<T> View for FlightTable<T> {
    type V = FlightsView<T>;

    closed spec fn view(&self) -> FlightsView<T> {
        FlightsView {
            calls: Seq::new(self.calls@.len(), |i: int| self.calls@[i]@),
            next: self.next as int,
        }
    }
}

/// The place of the call with the number.
pub open spec fn at<T>(calls: Seq<CallView<T>>, number: int) -> Option<int>
    decreases calls.len(),
{
    if calls.len() == 0 {
        None
    } else {
        match at(calls.drop_last(), number) {
            Some(i) => Some(i),
            None => if calls.last().number == number {
                Some(calls.len() - 1)
            } else {
                None
            },
        }
    }
}

/// Some call does the work for the key.
pub open spec fn led<T>(calls: Seq<CallView<T>>, key: Seq<char>) -> bool {
    exists|i: int|
        0 <= i < calls.len() && (#[trigger] calls[i]).key == key && calls[i].phase is Leading
}

/// The call as it is once the work for the key came to the outcome.
pub open spec fn handed<T>(
    call: CallView<T>,
    key: Seq<char>,
    outcome: Result<Arc<T>, String>,
) -> CallView<T> {
    if call.key == key && call.phase is Waiting {
        CallView { phase: Phase::Answered(outcome), ..call }
    } else {
        call
    }
}

/// The state once a call for the key came.
pub open spec fn joined<T>(s: FlightsView<T>, key: Seq<char>) -> FlightsView<T> {
    FlightsView {
        calls: s.calls.push(CallView { number: s.next, key, phase: Phase::Waiting }),
        next: s.next + 1,
    }
}

/// The state once a call had its turn, and what the call does: a waiting call leads where
/// no other does, and an answered one returns.
pub open spec fn turned<T>(s: FlightsView<T>, number: int) -> (FlightsView<T>, Option<Turn<T>>) {
    match at(s.calls, number) {
        None => (s, None),
        Some(i) => match s.calls[i].phase {
            Phase::Leading => (s, Some(Turn::Lead)),
            Phase::Waiting => if led(s.calls, s.calls[i].key) {
                (s, Some(Turn::Wait))
            } else {
                (
                    FlightsView {
                        calls: s.calls.update(
                            i,
                            CallView { phase: Phase::Leading, ..s.calls[i] },
                        ),
                        ..s
                    },
                    Some(Turn::Lead),
                )
            },
            Phase::Answered(outcome) => (
                FlightsView { calls: s.calls.remove(i), ..s },
                Some(Turn::Take(outcome)),
            ),
        },
    }
}

/// The state once the work of a leading call ended: the call returned, and those that
/// waited for it are answered.
pub open spec fn landed<T>(
    s: FlightsView<T>,
    number: int,
    outcome: Result<Arc<T>, String>,
) -> FlightsView<T> {
    match at(s.calls, number) {
        Some(i) if s.calls[i].phase is Leading => FlightsView {
            calls: Seq::new(
                s.calls.len(),
                |j: int| handed(s.calls[j], s.calls[i].key, outcome),
            ).remove(i),
            ..s
        },
        _ => s,
    }
}

/// The state once a call was given up.
pub open spec fn abandoned<T>(s: FlightsView<T>, number: int) -> FlightsView<T> {
    match at(s.calls, number) {
        Some(i) => FlightsView { calls: s.calls.remove(i), ..s },
        None => s,
    }
}

/// What holds at every moment: no number was given twice, and of the calls for a key at
/// most one leads.
pub open spec fn sound<T>(s: FlightsView<T>) -> bool {
    &&& forall|i: int| 0 <= i < s.calls.len() ==> (#[trigger] s.calls[i]).number < s.next
    &&& forall|i: int, j: int|
        0 <= i < j < s.calls.len() ==> (#[trigger] s.calls[i]).number != (
        #[trigger] s.calls[j]).number
    &&& forall|i: int, j: int|
        0 <= i < j < s.calls.len() && (#[trigger] s.calls[i]).phase is Leading && (
        #[trigger] s.calls[j]).phase is Leading ==> s.calls[i].key != s.calls[j].key
}

proof fn lemma_at<T>(calls: Seq<CallView<T>>, number: int)
    ensures
        at(calls, number) matches Some(i) ==> 0 <= i < calls.len() && calls[i].number == number,
        at(calls, number) is None ==> forall|j: int|
            0 <= j < calls.len() ==> (#[trigger] calls[j]).number != number,
    decreases calls.len(),
{
    if calls.len() > 0 {
        let rest = calls.drop_last();
        lemma_at(rest, number);
        match at(rest, number) {
            Some(i) => {
                assert(rest[i] == calls[i]);
            },
            None => {
                assert forall|j: int|
                    0 <= j < calls.len() && calls.last().number != number implies (
                #[trigger] calls[j]).number != number by {
                    if j < rest.len() {
                        assert(rest[j] == calls[j]);
                    }
                }
            },
        }
    }
}

proof fn lemma_at_place<T>(s: FlightsView<T>, i: int)
    requires
        sound(s),
        0 <= i < s.calls.len(),
    ensures
        at(s.calls, s.calls[i].number) == Some(i),
{
    lemma_at(s.calls, s.calls[i].number);
    let k = at(s.calls, s.calls[i].number)->0;
    if k < i {
        assert(s.calls[k].number != s.calls[i].number);
    } else if i < k {
        assert(s.calls[i].number != s.calls[k].number);
    }
}

fn copied<T>(outcome: &Result<Arc<T>, String>) -> (r: Result<Arc<T>, String>)
    ensures
        r == *outcome,
{
    match outcome {
        Ok(value) => Ok(value.clone()),
        Err(message) => Err(message.clone()),
    }
}

impl<T> FlightTable<T> {
    /// What holds at every moment.
    pub open spec fn wf(self) -> bool {
        sound(self@)
    }

    /// There are no calls.
    pub fn new() -> (r: FlightTable<T>)
        ensures
            r.wf(),
            r@.calls == Seq::<CallView<T>>::empty(),
            r@.next == 0,
    {
        let r = FlightTable { calls: Vec::new(), next: 0 };
        assert(r@.calls =~= Seq::<CallView<T>>::empty());
        r
    }

    /// Whether a number is left for another call.
    pub fn has_room(&self) -> (r: bool)
        ensures
            r == (self@.next < u64::MAX),
    {
        self.next < u64::MAX
    }

    fn find(&self, number: u64) -> (r: Option<usize>)
        requires
            self.wf(),
        ensures
            match r {
                Some(i) => at(self@.calls, number as int) == Some(i as int) && i
                    < self@.calls.len(),
                None => at(self@.calls, number as int) is None,
            },
    {
        let mut i: usize = 0;
        while i < self.calls.len()
            invariant
                self.wf(),
                i <= self.calls@.len(),
                forall|j: int| 0 <= j < i ==> (#[trigger] self@.calls[j]).number != number,
            decreases self.calls@.len() - i,
        {
            assert(self@.calls[i as int] == self.calls@[i as int]@);
            if self.calls[i].number == number {
                proof {
                    lemma_at_place(self@, i as int);
                }
                return Some(i);
            }
            i = i + 1;
        }
        proof {
            lemma_at(self@.calls, number as int);
        }
        None
    }

    fn is_led(&self, key: &str) -> (r: bool)
        ensures
            r == led(self@.calls, key@),
    {
        let mut i: usize = 0;
        while i < self.calls.len()
            invariant
                i <= self.calls@.len(),
                forall|j: int|
                    0 <= j < i ==> !((#[trigger] self@.calls[j]).key == key@
                        && self@.calls[j].phase is Leading),
            decreases self.calls@.len() - i,
        {
            assert(self@.calls[i as int] == self.calls@[i as int]@);
            let leads = match self.calls[i].phase {
                Phase::Leading => true,
                _ => false,
            };
            if leads && text::same(self.calls[i].key.as_str(), key) {
                return true;
            }
            i = i + 1;
        }
        false
    }

    /// Takes note of a call for the key, and gives it a number.
    pub fn join(&mut self, key: &str) -> (r: u64)
        requires
            old(self).wf(),
            old(self)@.next < u64::MAX,
        ensures
            final(self).wf(),
            final(self)@ == joined(old(self)@, key@),
            r == old(self)@.next,
    {
        let number = self.next;
        proof {
            joining_keeps_soundness(self@, key@);
        }
        self.calls.push(Call { number, key: key.to_owned(), phase: Phase::Waiting });
        self.next = number + 1;
        assert(self@.calls =~= joined(old(self)@, key@).calls);
        number
    }

    /// What a call does next: nothing where there is no such call.
    pub fn turn(&mut self, number: u64) -> (r: Option<Turn<T>>)
        requires
            old(self).wf(),
        ensures
            final(self).wf(),
            (final(self)@, r) == turned(old(self)@, number as int),
    {
        proof {
            turning_keeps_soundness(self@, number as int);
        }
        let i = match self.find(number) {
            Some(i) => i,
            None => {
                return None;
            },
        };
        assert(self@.calls[i as int] == self.calls@[i as int]@);
        let waits = match &self.calls[i].phase {
            Phase::Leading => {
                return Some(Turn::Lead);
            },
            Phase::Waiting => true,
            Phase::Answered(_) => false,
        };
        if waits {
            if self.is_led(self.calls[i].key.as_str()) {
                return Some(Turn::Wait);
            }
            self.calls[i].phase = Phase::Leading;
            assert(self@.calls =~= turned(old(self)@, number as int).0.calls);
            return Some(Turn::Lead);
        }
        let call = self.calls.remove(i);
        assert(self@.calls =~= old(self)@.calls.remove(i as int));
        match call.phase {
            Phase::Answered(outcome) => Some(Turn::Take(outcome)),
            _ => None,
        }
    }

    /// Takes note that the work of a leading call ended. The call returns the outcome, and
    /// those that waited for it are handed it.
    pub fn land(&mut self, number: u64, outcome: &Result<Arc<T>, String>)
        requires
            old(self).wf(),
        ensures
            final(self).wf(),
            final(self)@ == landed(old(self)@, number as int, *outcome),
    {
        proof {
            landing_keeps_soundness(self@, number as int, *outcome);
        }
        let i = match self.find(number) {
            Some(i) => i,
            None => {
                return;
            },
        };
        assert(self@.calls[i as int] == self.calls@[i as int]@);
        match &self.calls[i].phase {
            Phase::Leading => {},
            _ => {
                return;
            },
        }
        let ghost before = self@;
        let key = self.calls[i].key.clone();
        let mut j: usize = 0;
        while j < self.calls.len()
            invariant
                j <= self.calls@.len(),
                i < self.calls@.len(),
                self.calls@.len() == before.calls.len(),
                self.next == before.next,
                key@ == before.calls[i as int].key,
                forall|k: int|
                    0 <= k < j ==> (#[trigger] self.calls@[k])@ == handed(
                        before.calls[k],
                        key@,
                        *outcome,
                    ),
                forall|k: int|
                    j <= k < before.calls.len() ==> (#[trigger] self.calls@[k])@
                        == before.calls[k],
            decreases self.calls@.len() - j,
        {
            assert(self.calls@[j as int]@ == before.calls[j as int]);
            let waits = match &self.calls[j].phase {
                Phase::Waiting => true,
                _ => false,
            };
            if waits && text::same(self.calls[j].key.as_str(), key.as_str()) {
                self.calls[j].phase = Phase::Answered(copied(outcome));
            }
            j = j + 1;
        }
        let _ = self.calls.remove(i);
        assert(self@.calls =~= landed(before, number as int, *outcome).calls);
    }

    /// Takes note that a call was given up.
    pub fn abandon(&mut self, number: u64)
        requires
            old(self).wf(),
        ensures
            final(self).wf(),
            final(self)@ == abandoned(old(self)@, number as int),
    {
        proof {
            abandoning_keeps_soundness(self@, number as int);
        }
        match self.find(number) {
            Some(i) => {
                let _ = self.calls.remove(i);
                assert(self@.calls =~= old(self)@.calls.remove(i as int));
            },
            None => {},
        }
    }
}

/// Another call keeps what holds at every moment.
pub proof fn joining_keeps_soundness<T>(s: FlightsView<T>, key: Seq<char>)
    requires
        sound(s),
    ensures
        sound(joined(s, key)),
{
}

/// A turn keeps what holds at every moment: a call leads only where no other does.
pub proof fn turning_keeps_soundness<T>(s: FlightsView<T>, number: int)
    requires
        sound(s),
    ensures
        sound(turned(s, number).0),
{
    lemma_at(s.calls, number);
    let t = turned(s, number).0;
    match at(s.calls, number) {
        Some(i) => {
            if s.calls[i].phase is Answered {
                lemma_without(s, i);
            } else if s.calls[i].phase is Waiting && !led(s.calls, s.calls[i].key) {
                assert forall|a: int, b: int|
                    0 <= a < b < t.calls.len() && (#[trigger] t.calls[a]).phase is Leading && (
                    #[trigger] t.calls[b]).phase is Leading implies t.calls[a].key
                    != t.calls[b].key by {
                    if a == i {
                        assert(t.calls[b] == s.calls[b]);
                    } else if b == i {
                        assert(t.calls[a] == s.calls[a]);
                    } else {
                        assert(t.calls[a] == s.calls[a] && t.calls[b] == s.calls[b]);
                    }
                }
                assert forall|a: int, b: int| 0 <= a < b < t.calls.len() implies (
                #[trigger] t.calls[a]).number != (#[trigger] t.calls[b]).number by {
                    assert(s.calls[a].number != s.calls[b].number);
                }
            }
        },
        None => {},
    }
}

proof fn lemma_without<T>(s: FlightsView<T>, i: int)
    requires
        sound(s),
        0 <= i < s.calls.len(),
    ensures
        sound(FlightsView { calls: s.calls.remove(i), ..s }),
{
    let left = s.calls.remove(i);
    assert forall|a: int, b: int| 0 <= a < b < left.len() implies (#[trigger] left[a]).number != (
    #[trigger] left[b]).number && (left[a].phase is Leading && left[b].phase is Leading
        ==> left[a].key != left[b].key) by {
        let a2 = if a < i {
            a
        } else {
            a + 1
        };
        let b2 = if b < i {
            b
        } else {
            b + 1
        };
        assert(left[a] == s.calls[a2] && left[b] == s.calls[b2]);
        assert(s.calls[a2].number != s.calls[b2].number);
    }
    assert forall|a: int| 0 <= a < left.len() implies (#[trigger] left[a]).number < s.next by {
        assert(left[a] == s.calls[if a < i {
            a
        } else {
            a + 1
        }]);
    }
}

/// The end of work keeps what holds at every moment.
pub proof fn landing_keeps_soundness<T>(
    s: FlightsView<T>,
    number: int,
    outcome: Result<Arc<T>, String>,
)
    requires
        sound(s),
    ensures
        sound(landed(s, number, outcome)),
{
    lemma_at(s.calls, number);
    match at(s.calls, number) {
        Some(i) => {
            let key = s.calls[i].key;
            let told = FlightsView {
                calls: Seq::new(s.calls.len(), |j: int| handed(s.calls[j], key, outcome)),
                ..s
            };
            assert forall|a: int, b: int| 0 <= a < b < told.calls.len() implies (
            #[trigger] told.calls[a]).number != (#[trigger] told.calls[b]).number && (
            told.calls[a].phase is Leading && told.calls[b].phase is Leading
                ==> told.calls[a].key != told.calls[b].key) by {
                assert(s.calls[a].number != s.calls[b].number);
            }
            assert(sound(told));
            lemma_without(told, i);
        },
        None => {},
    }
}

/// A call that was given up leaves what holds at every moment.
pub proof fn abandoning_keeps_soundness<T>(s: FlightsView<T>, number: int)
    requires
        sound(s),
    ensures
        sound(abandoned(s, number)),
{
    lemma_at(s.calls, number);
    match at(s.calls, number) {
        Some(i) => {
            lemma_without(s, i);
        },
        None => {},
    }
}

/// Something that happens to the calls.
pub enum Event<T> {
    Joined(Seq<char>),
    Turned(int),
    Landed(int, Result<Arc<T>, String>),
    Abandoned(int),
}

/// The state once something happened.
pub open spec fn after<T>(s: FlightsView<T>, event: Event<T>) -> FlightsView<T> {
    match event {
        Event::Joined(key) => joined(s, key),
        Event::Turned(number) => turned(s, number).0,
        Event::Landed(number, outcome) => landed(s, number, outcome),
        Event::Abandoned(number) => abandoned(s, number),
    }
}

/// The state once all this happened, one after the other.
pub open spec fn after_all<T>(s: FlightsView<T>, events: Seq<Event<T>>) -> FlightsView<T>
    decreases events.len(),
{
    if events.len() == 0 {
        s
    } else {
        after(after_all(s, events.drop_last()), events.last())
    }
}

/// The call with the number is for the key and stands at the phase.
pub open spec fn stands<T>(
    s: FlightsView<T>,
    number: int,
    key: Seq<char>,
    phase: Phase<T>,
) -> bool {
    at(s.calls, number) matches Some(i) && s.calls[i].key == key && s.calls[i].phase == phase
}

/// Whatever happens keeps what holds at every moment.
pub proof fn events_keep_soundness<T>(s: FlightsView<T>, event: Event<T>)
    requires
        sound(s),
    ensures
        sound(after(s, event)),
{
    match event {
        Event::Joined(key) => joining_keeps_soundness(s, key),
        Event::Turned(number) => turning_keeps_soundness(s, number),
        Event::Landed(number, outcome) => landing_keeps_soundness(s, number, outcome),
        Event::Abandoned(number) => abandoning_keeps_soundness(s, number),
    }
}

/// The event is another call's, and not one that answers the call.
spec fn passes<T>(event: Event<T>, number: int, phase: Phase<T>) -> bool {
    match event {
        Event::Joined(_) => true,
        Event::Turned(other) => other != number,
        Event::Landed(other, _) => other != number && !(phase is Waiting),
        Event::Abandoned(other) => other != number,
    }
}

proof fn lemma_passes<T>(
    s: FlightsView<T>,
    event: Event<T>,
    number: int,
    key: Seq<char>,
    phase: Phase<T>,
)
    requires
        sound(s),
        stands(s, number, key, phase),
        passes(event, number, phase),
    ensures
        stands(after(s, event), number, key, phase),
{
    let t = after(s, event);
    events_keep_soundness(s, event);
    lemma_at(s.calls, number);
    let i = at(s.calls, number)->0;
    match event {
        Event::Joined(_) => {
            assert(t.calls[i] == s.calls[i]);
            lemma_at_place(t, i);
        },
        Event::Turned(other) => {
            lemma_at(s.calls, other);
            lemma_passed_by(s, t, other, i);
        },
        Event::Landed(other, outcome) => {
            lemma_at(s.calls, other);
            lemma_passed_by(s, t, other, i);
        },
        Event::Abandoned(other) => {
            lemma_at(s.calls, other);
            lemma_passed_by(s, t, other, i);
        },
    }
}

proof fn lemma_passed_by<T>(s: FlightsView<T>, t: FlightsView<T>, other: int, i: int)
    requires
        sound(t),
        0 <= i < s.calls.len(),
        s.calls[i].number != other,
        at(s.calls, other) matches Some(k) ==> 0 <= k < s.calls.len() && s.calls[k].number == other,
        ({
            let k = at(s.calls, other);
            ||| t.calls == s.calls
            ||| k is Some && t.calls.len() == s.calls.len() && t.calls[i] == s.calls[i]
            ||| k is Some && t.calls.len() == s.calls.len() - 1 && t.calls[if i < k->0 {
                i
            } else {
                i - 1
            }] == s.calls[i]
        }),
    ensures
        at(t.calls, s.calls[i].number) matches Some(j) && t.calls[j] == s.calls[i],
{
    if t.calls.len() == s.calls.len() {
        lemma_at_place(t, i);
    } else {
        let k = at(s.calls, other)->0;
        lemma_at_place(
            t,
            if i < k {
                i
            } else {
                i - 1
            },
        );
    }
}

/// While a call leads, it goes on leading whatever happens to the others, and no other
/// call for its key leads: the work is done once for all calls that overlap.
pub proof fn the_work_is_done_once<T>(
    s: FlightsView<T>,
    events: Seq<Event<T>>,
    leader: int,
    key: Seq<char>,
    other: int,
)
    requires
        sound(s),
        stands(s, leader, key, Phase::<T>::Leading),
        other != leader,
        forall|k: int|
            0 <= k < events.len() ==> match #[trigger] events[k] {
                Event::Landed(number, _) => number != leader,
                Event::Abandoned(number) => number != leader,
                _ => true,
            },
    ensures
        sound(after_all(s, events)),
        stands(after_all(s, events), leader, key, Phase::<T>::Leading),
        ({
            let now = after_all(s, events);
            at(now.calls, other) matches Some(i) && now.calls[i].key == key ==> !(turned(
                now,
                other,
            ).1 matches Some(Turn::Lead))
        }),
    decreases events.len(),
{
    let now = after_all(s, events);
    if events.len() > 0 {
        let rest = events.drop_last();
        let before = after_all(s, rest);
        let last = events.last();
        assert(events[events.len() - 1] == last);
        assert forall|k: int| 0 <= k < rest.len() implies match #[trigger] rest[k] {
            Event::Landed(number, _) => number != leader,
            Event::Abandoned(number) => number != leader,
            _ => true,
        } by {
            assert(events[k] == rest[k]);
        }
        the_work_is_done_once(s, rest, leader, key, other);
        events_keep_soundness(before, last);
        if last != Event::<T>::Turned(leader) {
            lemma_passes(before, last, leader, key, Phase::<T>::Leading);
        }
    }
    lemma_at(now.calls, leader);
    lemma_at(now.calls, other);
    let l = at(now.calls, leader)->0;
    assert(led(now.calls, key)) by {
        assert(now.calls[l].key == key && now.calls[l].phase is Leading);
    }
    match at(now.calls, other) {
        Some(i) => {
            if i < l {
                assert(now.calls[i].number != now.calls[l].number);
            } else if l < i {
                assert(now.calls[l].number != now.calls[i].number);
            }
        },
        None => {},
    }
}

/// A call that waits when the work for its key ends returns the outcome of that work,
/// whatever happens to the other calls before its turn.
pub proof fn waiting_calls_get_the_outcome<T>(
    s: FlightsView<T>,
    leader: int,
    waiting: int,
    key: Seq<char>,
    outcome: Result<Arc<T>, String>,
    events: Seq<Event<T>>,
)
    requires
        sound(s),
        stands(s, leader, key, Phase::<T>::Leading),
        stands(s, waiting, key, Phase::<T>::Waiting),
        forall|k: int|
            0 <= k < events.len() ==> match #[trigger] events[k] {
                Event::Turned(number) => number != waiting,
                Event::Abandoned(number) => number != waiting,
                _ => true,
            },
    ensures
        turned(s, waiting).1 == Some(Turn::<T>::Wait),
        turned(after_all(landed(s, leader, outcome), events), waiting).1 == Some(
            Turn::Take(outcome),
        ),
{
    lemma_at(s.calls, leader);
    lemma_at(s.calls, waiting);
    let l = at(s.calls, leader)->0;
    let w = at(s.calls, waiting)->0;
    assert(led(s.calls, key)) by {
        assert(s.calls[l].key == key && s.calls[l].phase is Leading);
    }
    let t = landed(s, leader, outcome);
    landing_keeps_soundness(s, leader, outcome);
    let w2 = if w < l {
        w
    } else {
        w - 1
    };
    assert(t.calls[w2] == handed(s.calls[w], key, outcome));
    lemma_at_place(t, w2);
    lemma_answer_stays(t, events, waiting, key, outcome);
}

proof fn lemma_answer_stays<T>(
    s: FlightsView<T>,
    events: Seq<Event<T>>,
    number: int,
    key: Seq<char>,
    outcome: Result<Arc<T>, String>,
)
    requires
        sound(s),
        stands(s, number, key, Phase::Answered(outcome)),
        forall|k: int|
            0 <= k < events.len() ==> match #[trigger] events[k] {
                Event::Turned(other) => other != number,
                Event::Abandoned(other) => other != number,
                _ => true,
            },
    ensures
        sound(after_all(s, events)),
        stands(after_all(s, events), number, key, Phase::Answered(outcome)),
    decreases events.len(),
{
    if events.len() > 0 {
        let rest = events.drop_last();
        let before = after_all(s, rest);
        let last = events.last();
        assert(events[events.len() - 1] == last);
        assert forall|k: int| 0 <= k < rest.len() implies match #[trigger] rest[k] {
            Event::Turned(other) => other != number,
            Event::Abandoned(other) => other != number,
            _ => true,
        } by {
            assert(events[k] == rest[k]);
        }
        lemma_answer_stays(s, rest, number, key, outcome);
        events_keep_soundness(before, last);
        if last matches Event::Landed(other, _) && other == number {
            assert(after(before, last) == before);
        } else {
            lemma_passes(before, last, number, key, Phase::Answered(outcome));
        }
    }
}

/// A call that comes once no work for its key is under way does work of its own; so does
/// one that comes after the work ended.
pub proof fn later_calls_do_their_own_work<T>(
    s: FlightsView<T>,
    leader: int,
    key: Seq<char>,
    outcome: Result<Arc<T>, String>,
)
    requires
        sound(s),
    ensures
        !led(s.calls, key) ==> turned(joined(s, key), s.next).1 == Some(Turn::<T>::Lead),
        stands(s, leader, key, Phase::<T>::Leading) ==> turned(
            joined(landed(s, leader, outcome), key),
            s.next,
        ).1 == Some(Turn::<T>::Lead),
{
    if !led(s.calls, key) {
        lemma_first_call(s, key);
    }
    if stands(s, leader, key, Phase::<T>::Leading) {
        let t = landed(s, leader, outcome);
        lemma_at(s.calls, leader);
        landing_keeps_soundness(s, leader, outcome);
        let l = at(s.calls, leader)->0;
        lemma_alone(s, l, t.calls);
        lemma_first_call(t, key);
    }
}

proof fn lemma_first_call<T>(s: FlightsView<T>, key: Seq<char>)
    requires
        sound(s),
        !led(s.calls, key),
    ensures
        turned(joined(s, key), s.next).1 == Some(Turn::<T>::Lead),
{
    let t = joined(s, key);
    joining_keeps_soundness(s, key);
    lemma_at_place(t, s.calls.len() as int);
    if led(t.calls, key) {
        let i = choose|i: int|
            0 <= i < t.calls.len() && (#[trigger] t.calls[i]).key == key
                && t.calls[i].phase is Leading;
        assert(t.calls[i] == s.calls[i]);
    }
}

proof fn lemma_alone<T>(s: FlightsView<T>, l: int, left: Seq<CallView<T>>)
    requires
        sound(s),
        0 <= l < s.calls.len(),
        s.calls[l].phase is Leading,
        left.len() == s.calls.len() - 1,
        forall|j: int|
            0 <= j < left.len() && (#[trigger] left[j]).phase is Leading ==> left[j] == s.calls[if j
                < l {
                j
            } else {
                j + 1
            }],
    ensures
        !led(left, s.calls[l].key),
{
    if led(left, s.calls[l].key) {
        let j = choose|j: int|
            0 <= j < left.len() && (#[trigger] left[j]).key == s.calls[l].key
                && left[j].phase is Leading;
        if j < l {
            assert(s.calls[j].key != s.calls[l].key);
        } else {
            assert(s.calls[l].key != s.calls[j + 1].key);
        }
    }
}

/// When the leading call is given up, a call that waits for it takes its place: it does
/// work of its own at its next turn.
pub proof fn a_waiting_call_takes_over<T>(
    s: FlightsView<T>,
    leader: int,
    waiting: int,
    key: Seq<char>,
)
    requires
        sound(s),
        stands(s, leader, key, Phase::<T>::Leading),
        stands(s, waiting, key, Phase::<T>::Waiting),
    ensures
        turned(abandoned(s, leader), waiting).1 == Some(Turn::<T>::Lead),
{
    lemma_at(s.calls, leader);
    lemma_at(s.calls, waiting);
    let l = at(s.calls, leader)->0;
    let w = at(s.calls, waiting)->0;
    let t = abandoned(s, leader);
    abandoning_keeps_soundness(s, leader);
    let w2 = if w < l {
        w
    } else {
        w - 1
    };
    assert(t.calls[w2] == s.calls[w]);
    lemma_at_place(t, w2);
    lemma_alone(s, l, t.calls);
}

/// A call is found by its number, and a number that no call has finds none.
pub proof fn calls_are_found_by_number<T>(s: FlightsView<T>, i: int, number: int)
    requires
        sound(s),
    ensures
        0 <= i < s.calls.len() ==> at(s.calls, s.calls[i].number) == Some(i),
        (forall|j: int| 0 <= j < s.calls.len() ==> (#[trigger] s.calls[j]).number != number)
            ==> at(s.calls, number) is None && turned(s, number) == (s, None::<Turn<T>>)
            && abandoned(s, number) == s,
{
    if 0 <= i < s.calls.len() {
        lemma_at_place(s, i);
    }
    lemma_at(s.calls, number);
}

/// No two calls have one number, none has a number that is still to be given, and no two
/// calls for one key lead.
pub proof fn one_call_leads<T>(s: FlightsView<T>, i: int, j: int)
    requires
        sound(s),
        0 <= i < j < s.calls.len(),
    ensures
        s.calls[i].number != s.calls[j].number,
        s.calls[i].number < s.next,
        s.calls[j].number < s.next,
        s.calls[i].key == s.calls[j].key ==> !(s.calls[i].phase is Leading) || !(
        s.calls[j].phase is Leading),
{
}

/// A call comes last, waits for its turn, and has the number that was next.
pub proof fn calls_come_in_turn<T>(s: FlightsView<T>, key: Seq<char>)
    ensures
        joined(s, key).next == s.next + 1,
        joined(s, key).calls.len() == s.calls.len() + 1,
        joined(s, key).calls.last().number == s.next,
        joined(s, key).calls.last().key == key,
        joined(s, key).calls.last().phase is Waiting,
        joined(s, key).calls.drop_last() == s.calls,
{
    assert(joined(s, key).calls.drop_last() =~= s.calls);
}

/// A call that had its answer is gone once it took it, and the others stay as they were.
pub proof fn answered_calls_return<T>(s: FlightsView<T>, i: int, outcome: Result<Arc<T>, String>)
    requires
        sound(s),
        0 <= i < s.calls.len(),
        s.calls[i].phase == Phase::Answered(outcome),
    ensures
        turned(s, s.calls[i].number).1 == Some(Turn::Take(outcome)),
        turned(s, s.calls[i].number).0.calls == s.calls.remove(i),
        turned(s, s.calls[i].number).0.next == s.next,
{
    lemma_at_place(s, i);
}

/// The end of work is no business of calls for another key, nor of a call that has its
/// answer already; and work that a call does not lead cannot end with it.
pub proof fn other_calls_are_left_alone<T>(
    s: FlightsView<T>,
    l: int,
    i: int,
    outcome: Result<Arc<T>, String>,
)
    requires
        sound(s),
        0 <= l < s.calls.len(),
        0 <= i < s.calls.len(),
        i != l,
    ensures
        !(s.calls[l].phase is Leading) ==> landed(s, s.calls[l].number, outcome) == s,
        s.calls[l].phase is Leading ==> {
            let left = landed(s, s.calls[l].number, outcome).calls;
            let k = if i < l {
                i
            } else {
                i - 1
            };
            &&& left.len() == s.calls.len() - 1
            &&& left[k].number == s.calls[i].number
            &&& left[k].key == s.calls[i].key
            &&& s.calls[i].key != s.calls[l].key || !(s.calls[i].phase is Waiting)
                ==> left[k].phase == s.calls[i].phase
            &&& s.calls[i].key == s.calls[l].key && s.calls[i].phase is Waiting ==> left[k].phase
                == Phase::Answered(outcome)
        },
        ({
            let left = abandoned(s, s.calls[l].number).calls;
            left.len() == s.calls.len() - 1 && left[if i < l {
                i
            } else {
                i - 1
            }] == s.calls[i]
        }),
{
    lemma_at_place(s, l);
}

/// A waiting call leads exactly where no call for its key does; then it is the only change.
pub proof fn waiting_calls_lead_in_turn<T>(s: FlightsView<T>, i: int)
    requires
        sound(s),
        0 <= i < s.calls.len(),
        s.calls[i].phase is Waiting,
    ensures
        (exists|j: int|
            0 <= j < s.calls.len() && (#[trigger] s.calls[j]).key == s.calls[i].key
                && s.calls[j].phase is Leading) ==> turned(s, s.calls[i].number) == (
            s,
            Some(Turn::<T>::Wait),
        ),
        (forall|j: int|
            0 <= j < s.calls.len() && (#[trigger] s.calls[j]).key == s.calls[i].key ==> !(
            s.calls[j].phase is Leading)) ==> turned(s, s.calls[i].number).1 == Some(
            Turn::<T>::Lead,
        ) && turned(s, s.calls[i].number).0.calls[i].phase is Leading && turned(
            s,
            s.calls[i].number,
        ).0.calls[i].key == s.calls[i].key,
{
    lemma_at_place(s, i);
}

} // verus!
