use vstd::prelude::*;

use crate::calendar::{EligibleDates, MAX_DAY, MIN_DAY};

verus! {

/// How a day leaves the roster.
#[derive(PartialEq, Eq, Structural, Clone, Copy, Debug)]
pub enum DropType {
    /// Remove the day and leave a gap.
    Clean,
    /// From the day on, everyone takes the next one's turn; the last day goes.
    Collapse,
    /// From the day on, everyone waits one turn; a new eligible day is added
    /// at the end and the day itself goes.
    Postpone,
}

/// The person on duty for one day: a name and a phone number to notify.
#[derive(Debug)]
pub struct Person {
    pub name: String,
    pub phone: String,
}

impl Clone for Person {
    fn clone(&self) -> (r: Self)
        ensures
            r == *self,
    {
        Person { name: self.name.clone(), phone: self.phone.clone() }
    }
}

/// Why an edit of the roster was refused. The roster is left as it was.
#[derive(PartialEq, Eq, Structural, Clone, Copy, Debug)]
pub enum RosterError {
    /// A date named by the edit has no entry.
    DateNotFound,
    /// No eligible day follows the last date of the roster.
    NoEligibleDate,
}

/// Strictly increasing: sorted, and no day twice.
pub open spec fn strictly_increasing(s: Seq<i32>) -> bool {
    forall|i: int, j: int| 0 <= i < j < s.len() ==> s[i] < s[j]
}

/// The duty roster: at most one person for each day, kept in calendar order.
/// Days are counted from the common era (see the calendar module).
pub struct Roster {
    dates: Vec<i32>,
    people: Vec<Person>,
}

impl Roster {
    /// The days of the roster, in calendar order.
    pub closed spec fn days(&self) -> Seq<i32> {
        self.dates@
    }

    /// The people of the roster: `people()[i]` is on duty on `days()[i]`.
    pub closed spec fn people(&self) -> Seq<Person> {
        self.people@
    }

    /// One person per day, the days strictly increasing, and each one a day
    /// that can be written as a date.
    pub open spec fn wf(&self) -> bool {
        &&& self.days().len() == self.people().len()
        &&& strictly_increasing(self.days())
        &&& forall|i: int| 0 <= i < self.days().len() ==> MIN_DAY <= #[trigger] self.days()[i] <= MAX_DAY
    }

    pub open spec fn has(&self, d: i32) -> bool {
        self.days().contains(d)
    }

    /// The position of day `d` in `days()`, where `d` has an entry.
    pub open spec fn pos(&self, d: i32) -> int {
        choose|i: int| 0 <= i < self.days().len() && self.days()[i] == d
    }

    /// The person on duty on day `d`, where `d` has an entry.
    pub open spec fn at(&self, d: i32) -> Person {
        self.people()[self.pos(d)]
    }

    /// Every entry but the one of `d` is the same in `a` and `b`.
    pub open spec fn same_except(a: &Roster, b: &Roster, d: i32) -> bool {
        forall|e: i32|
            e != d ==> (a.has(e) == b.has(e) && (a.has(e) ==> a.at(e) == b.at(e)))
    }

    /// The `i`-th day has an entry, found at position `i`, with the `i`-th person.
    pub proof fn lemma_pos(&self, i: int)
        requires
            self.wf(),
            0 <= i < self.days().len(),
        ensures
            self.has(self.days()[i]),
            self.pos(self.days()[i]) == i,
            self.at(self.days()[i]) == self.people()[i],
    {
        let d = self.days()[i];
        assert(self.days()[i] == d);
        let j = self.pos(d);
        if j != i {
            if j < i {
                assert(self.days()[j] < self.days()[i]);
            } else {
                assert(self.days()[i] < self.days()[j]);
            }
        }
    }

    /// The empty roster.
    pub fn new() -> (r: Roster)
        ensures
            r.wf(),
            r.days().len() == 0,
    {
        Roster { dates: Vec::new(), people: Vec::new() }
    }

    /// The number of days with an entry.
    pub fn len(&self) -> (n: usize)
        requires
            self.wf(),
        ensures
            n == self.days().len(),
    {
        self.dates.len()
    }

    pub fn is_empty(&self) -> (b: bool)
        requires
            self.wf(),
        ensures
            b == (self.days().len() == 0),
    {
        self.dates.len() == 0
    }

    /// The day and the person of the `i`-th entry in calendar order.
    pub fn entry(&self, i: usize) -> (r: (i32, &Person))
        requires
            self.wf(),
            i < self.days().len(),
        ensures
            r.0 == self.days()[i as int],
            *r.1 == self.people()[i as int],
    {
        (self.dates[i], &self.people[i])
    }

    /// The days of the roster in calendar order.
    pub fn keys_sorted(&self) -> (r: Vec<i32>)
        requires
            self.wf(),
        ensures
            r@ == self.days(),
            strictly_increasing(r@),
    {
        let mut r: Vec<i32> = Vec::new();
        let mut i: usize = 0;
        while i < self.dates.len()
            invariant
                i <= self.dates@.len(),
                r@ == self.dates@.subrange(0, i as int),
            decreases self.dates@.len() - i,
        {
            r.push(self.dates[i]);
            i = i + 1;
            assert(r@ =~= self.dates@.subrange(0, i as int));
        }
        assert(r@ =~= self.dates@);
        r
    }

    /// Where `d` stands, or would stand, in calendar order: the number of days
    /// before it, and whether it has an entry.
    fn search(&self, d: i32) -> (r: (usize, bool))
        requires
            self.wf(),
        ensures
            r.0 <= self.days().len(),
            forall|k: int| 0 <= k < r.0 ==> self.days()[k] < d,
            forall|k: int| r.0 <= k < self.days().len() ==> self.days()[k] >= d,
            r.1 == (r.0 < self.days().len() && self.days()[r.0 as int] == d),
            r.1 == self.has(d),
            r.1 ==> self.pos(d) == r.0,
    {
        let mut i: usize = 0;
        while i < self.dates.len() && self.dates[i] < d
            invariant
                self.wf(),
                i <= self.dates@.len(),
                forall|k: int| 0 <= k < i ==> self.dates@[k] < d,
            decreases self.dates@.len() - i,
        {
            i = i + 1;
        }
        let found = i < self.dates.len() && self.dates[i] == d;
        proof {
            assert forall|k: int| i <= k < self.days().len() implies self.days()[k] >= d by {
                if k > i {
                    assert(self.days()[i as int] < self.days()[k]);
                }
            }
            if found {
                self.lemma_pos(i as int);
            } else if self.has(d) {
                let k = choose|k: int| 0 <= k < self.days().len() && self.days()[k] == d;
                if k >= i && k != i {
                    assert(self.days()[i as int] < self.days()[k]);
                }
            }
        }
        (i, found)
    }

    /// The person on duty on day `d`, if any.
    pub fn get(&self, d: i32) -> (r: Option<&Person>)
        requires
            self.wf(),
        ensures
            r.is_some() == self.has(d),
            r.is_some() ==> *r.unwrap() == self.at(d),
    {
        let (i, found) = self.search(d);
        if found {
            Some(&self.people[i])
        } else {
            None
        }
    }

    /// Whether day `d` has an entry.
    pub fn contains(&self, d: i32) -> (b: bool)
        requires
            self.wf(),
        ensures
            b == self.has(d),
    {
        let (_, found) = self.search(d);
        found
    }

    /// Puts `p` on duty on day `d`, in place of whoever was there.
    pub fn put(&mut self, d: i32, p: Person)
        requires
            old(self).wf(),
            MIN_DAY <= d <= MAX_DAY,
        ensures
            final(self).wf(),
            final(self).has(d),
            final(self).at(d) == p,
            Roster::same_except(&*old(self), &*final(self), d),
            old(self).has(d) ==> final(self).days().len() == old(self).days().len(),
            !old(self).has(d) ==> final(self).days().len() == old(self).days().len() + 1,
    {
        let ghost pre = *self;
        let (i, found) = self.search(d);
        if found {
            self.people[i] = p;
        } else {
            self.dates.insert(i, d);
            self.people.insert(i, p);
        }
        proof {
            assert(self.wf()) by {
                assert forall|a: int, b: int| 0 <= a < b < self.days().len() implies
                    self.days()[a] < self.days()[b] by {
                    if !found {
                        if b < i {
                        } else if a < i && b == i {
                        } else if a < i {
                            assert(self.days()[b] == pre.days()[b - 1]);
                        } else if a == i {
                            assert(self.days()[b] == pre.days()[b - 1]);
                        } else {
                            assert(pre.days()[a - 1] < pre.days()[b - 1]);
                        }
                    }
                }
            }
            self.lemma_pos(i as int);
            assert forall|e: i32| e != d implies
                (pre.has(e) == self.has(e) && (pre.has(e) ==> pre.at(e) == self.at(e))) by {
                if pre.has(e) {
                    let k = pre.pos(e);
                    pre.lemma_pos(k);
                    if found || k < i {
                        self.lemma_pos(k);
                    } else {
                        self.lemma_pos(k + 1);
                    }
                }
                if self.has(e) {
                    let k = self.pos(e);
                    self.lemma_pos(k);
                    if found || k < i {
                        pre.lemma_pos(k);
                    } else {
                        pre.lemma_pos(k - 1);
                    }
                }
            }
        }
    }

    /// Removes the entry of day `d`, and hands back who was on duty then.
    pub fn remove(&mut self, d: i32) -> (r: Option<Person>)
        requires
            old(self).wf(),
        ensures
            final(self).wf(),
            r.is_some() == old(self).has(d),
            r.is_some() ==> r.unwrap() == old(self).at(d),
            !final(self).has(d),
            Roster::same_except(&*old(self), &*final(self), d),
            r.is_some() ==> final(self).days() == old(self).days().remove(old(self).pos(d)),
            r.is_some() ==> final(self).people() == old(self).people().remove(old(self).pos(d)),
            r.is_none() ==> *final(self) == *old(self),
    {
        let ghost pre = *self;
        let (i, found) = self.search(d);
        if !found {
            return None;
        }
        self.dates.remove(i);
        let p = self.people.remove(i);
        proof {
            pre.lemma_remove(i as int, *self);
        }
        Some(p)
    }

    /// What holds of the roster that loses its `i`-th entry.
    proof fn lemma_remove(&self, i: int, post: Roster)
        requires
            self.wf(),
            0 <= i < self.days().len(),
            post.days() == self.days().remove(i),
            post.people() == self.people().remove(i),
        ensures
            post.wf(),
            !post.has(self.days()[i]),
            Roster::same_except(self, &post, self.days()[i]),
    {
        let d = self.days()[i];
        assert(post.wf()) by {
            assert forall|a: int, b: int| 0 <= a < b < post.days().len() implies
                post.days()[a] < post.days()[b] by {
                if b < i {
                } else if a < i {
                    assert(self.days()[a] < self.days()[b + 1]);
                } else {
                    assert(self.days()[a + 1] < self.days()[b + 1]);
                }
            }
        }
        if post.has(d) {
            let k = choose|k: int| 0 <= k < post.days().len() && post.days()[k] == d;
            if k < i {
                assert(self.days()[k] < self.days()[i]);
            } else {
                assert(self.days()[i] < self.days()[k + 1]);
            }
        }
        assert forall|e: i32| e != d implies
            (self.has(e) == post.has(e) && (self.has(e) ==> self.at(e) == post.at(e))) by {
            if self.has(e) {
                let k = self.pos(e);
                self.lemma_pos(k);
                if k < i {
                    post.lemma_pos(k);
                } else {
                    post.lemma_pos(k - 1);
                }
            }
            if post.has(e) {
                let k = post.pos(e);
                post.lemma_pos(k);
                if k < i {
                    self.lemma_pos(k);
                } else {
                    self.lemma_pos(k + 1);
                }
            }
        }
    }

    /// `new` is `old` after day `d` left it in the way `kind` names.
    pub open spec fn dropped(
        old: &Roster,
        new: &Roster,
        kind: DropType,
        d: i32,
        rules: &EligibleDates,
    ) -> bool {
        match kind {
            DropType::Clean => {
                &&& new.days() == old.days().remove(old.pos(d))
                &&& new.people() == old.people().remove(old.pos(d))
            },
            DropType::Collapse => {
                &&& new.days() == old.days().drop_last()
                &&& new.people() == old.people().remove(old.pos(d))
            },
            DropType::Postpone => {
                &&& new.people() == old.people()
                &&& exists|n: i32|
                    {
                        &&& old.days().last() < n
                        &&& #[trigger] rules.eligible(n)
                        &&& forall|k: i32| old.days().last() < k < n ==> !#[trigger] rules.eligible(k)
                        &&& new.days() == old.days().remove(old.pos(d)).push(n)
                    }
            },
        }
    }

    /// `new` is `old` with the people of days `d1` and `d2` exchanged.
    pub open spec fn switched(old: &Roster, new: &Roster, d1: i32, d2: i32) -> bool {
        &&& new.wf()
        &&& new.days() == old.days()
        &&& new.people() == old.people().update(old.pos(d1), old.at(d2)).update(
            old.pos(d2),
            old.at(d1),
        )
    }

    /// Exchanges the people on duty on days `d1` and `d2`. Refused, with the
    /// roster unchanged, where either day has no entry.
    pub fn switch(&mut self, d1: i32, d2: i32) -> (r: Result<(), RosterError>)
        requires
            old(self).wf(),
        ensures
            final(self).wf(),
            r.is_ok() == (old(self).has(d1) && old(self).has(d2)),
            r.is_ok() ==> Roster::switched(&*old(self), &*final(self), d1, d2),
            r.is_ok() ==> final(self).at(d1) == old(self).at(d2) && final(self).at(d2) == old(
                self,
            ).at(d1),
            r.is_ok() ==> forall|e: i32|
                e != d1 && e != d2 && #[trigger] old(self).has(e) ==> final(self).at(e) == old(
                    self,
                ).at(e),
            r is Err ==> r == Err::<(), RosterError>(RosterError::DateNotFound),
            r is Err ==> *final(self) == *old(self),
    {
        let ghost pre = *self;
        let (i, found1) = self.search(d1);
        let (j, found2) = self.search(d2);
        if !found1 || !found2 {
            return Err(RosterError::DateNotFound);
        }
        let p1 = self.people[i].clone();
        let p2 = self.people[j].clone();
        self.people.set(i, p2);
        self.people.set(j, p1);
        proof {
            self.lemma_pos(i as int);
            self.lemma_pos(j as int);
            assert forall|e: i32| e != d1 && e != d2 && #[trigger] pre.has(e) implies self.at(e)
                == pre.at(e) by {
                let k = pre.pos(e);
                pre.lemma_pos(k);
                self.lemma_pos(k);
            }
        }
        Ok(())
    }

    /// Removes day `d`; every other entry stays as it is.
    pub fn clean(&mut self, d: i32) -> (r: Result<(), RosterError>)
        requires
            old(self).wf(),
        ensures
            final(self).wf(),
            r.is_ok() == old(self).has(d),
            r.is_ok() ==> !final(self).has(d) && Roster::same_except(&*old(self), &*final(self), d),
            r.is_ok() ==> final(self).days() == old(self).days().remove(old(self).pos(d)),
            r.is_ok() ==> final(self).people() == old(self).people().remove(old(self).pos(d)),
            r is Err ==> r == Err::<(), RosterError>(RosterError::DateNotFound),
            r is Err ==> *final(self) == *old(self),
    {
        match self.remove(d) {
            Some(_) => Ok(()),
            None => Err(RosterError::DateNotFound),
        }
    }

    /// From day `d` on, each day takes the person of the next day; the last
    /// day of the roster goes. The days keep their order and the person of `d`
    /// leaves the rotation.
    pub fn collapse(&mut self, d: i32) -> (r: Result<(), RosterError>)
        requires
            old(self).wf(),
        ensures
            final(self).wf(),
            r.is_ok() == old(self).has(d),
            r.is_ok() ==> final(self).days() == old(self).days().drop_last(),
            r.is_ok() ==> final(self).people() == old(self).people().remove(old(self).pos(d)),
            r.is_ok() ==> final(self).days().len() == old(self).days().len() - 1,
            r.is_ok() && final(self).days().len() > 0 ==> final(self).days().last() < old(
                self,
            ).days().last(),
            r is Err ==> r == Err::<(), RosterError>(RosterError::DateNotFound),
            r is Err ==> *final(self) == *old(self),
    {
        let (i, found) = self.search(d);
        if !found {
            return Err(RosterError::DateNotFound);
        }
        self.people.remove(i);
        self.dates.pop();
        proof {
            let n = old(self).days().len();
            assert(self.days() =~= old(self).days().drop_last());
            if n >= 2 {
                assert(old(self).days()[n - 2] < old(self).days()[n - 1]);
            }
        }
        Ok(())
    }

    /// From day `d` on, each person waits one turn: the first eligible day
    /// after the last one of the roster is added, and `d` goes. The people
    /// keep their order.
    pub fn postpone(&mut self, d: i32, rules: &EligibleDates) -> (r: Result<(), RosterError>)
        requires
            old(self).wf(),
        ensures
            final(self).wf(),
            r.is_ok() == (old(self).has(d) && rules.has_eligible_after(old(self).days().last())),
            r.is_ok() ==> exists|n: i32|
                {
                    &&& old(self).days().last() < n
                    &&& #[trigger] rules.eligible(n)
                    &&& forall|k: i32| old(self).days().last() < k < n ==> !#[trigger] rules.eligible(k)
                    &&& final(self).days() == old(self).days().remove(old(self).pos(d)).push(n)
                },
            r.is_ok() ==> final(self).people() == old(self).people(),
            r.is_ok() ==> final(self).days().len() == old(self).days().len(),
            r is Err && !old(self).has(d) ==> r == Err::<(), RosterError>(RosterError::DateNotFound),
            r is Err && old(self).has(d) ==> r == Err::<(), RosterError>(RosterError::NoEligibleDate),
            r is Err ==> *final(self) == *old(self),
    {
        let (i, found) = self.search(d);
        if !found {
            return Err(RosterError::DateNotFound);
        }
        let latest = self.dates[self.dates.len() - 1];
        let next = match rules.next_eligible_after(latest) {
            Some(n) => n,
            None => {
                return Err(RosterError::NoEligibleDate);
            },
        };
        let ghost pre = *self;
        self.dates.remove(i);
        self.dates.push(next);
        proof {
            let n = pre.days().len();
            assert forall|a: int, b: int| 0 <= a < b < self.days().len() implies self.days()[a]
                < self.days()[b] by {
                if b == n - 1 {
                    if a < i {
                        assert(pre.days()[a] <= pre.days()[n - 1]) by {
                            if a < n - 1 {
                                assert(pre.days()[a] < pre.days()[n - 1]);
                            }
                        }
                    } else {
                        assert(pre.days()[a + 1] <= pre.days()[n - 1]) by {
                            if a + 1 < n - 1 {
                                assert(pre.days()[a + 1] < pre.days()[n - 1]);
                            }
                        }
                    }
                } else if b < i {
                } else if a < i {
                    assert(pre.days()[a] < pre.days()[b + 1]);
                } else {
                    assert(pre.days()[a + 1] < pre.days()[b + 1]);
                }
            }
            assert(rules.eligible(next));
        }
        Ok(())
    }

    /// Switching the same two days twice gives back the roster as it was.
    pub proof fn lemma_switch_twice(r0: &Roster, r1: &Roster, r2: &Roster, d1: i32, d2: i32)
        requires
            r0.wf(),
            r0.has(d1),
            r0.has(d2),
            Roster::switched(r0, r1, d1, d2),
            Roster::switched(r1, r2, d1, d2),
        ensures
            r2.days() == r0.days(),
            r2.people() == r0.people(),
    {
        let i = r0.pos(d1);
        let j = r0.pos(d2);
        r0.lemma_pos(i);
        r0.lemma_pos(j);
        r1.lemma_pos(i);
        r1.lemma_pos(j);
        assert(r2.people() =~= r0.people());
    }
}

/// Takes day `date` out of the roster in the way `drop_type` names.
pub fn drop_name(
    people_table: &mut Roster,
    drop_type: DropType,
    date: i32,
    rules: &EligibleDates,
) -> (r: Result<(), RosterError>)
    requires
        old(people_table).wf(),
    ensures
        final(people_table).wf(),
        drop_type == DropType::Clean ==> r.is_ok() == old(people_table).has(date),
        drop_type == DropType::Collapse ==> r.is_ok() == old(people_table).has(date),
        drop_type == DropType::Postpone ==> r.is_ok() == (old(people_table).has(date)
            && rules.has_eligible_after(old(people_table).days().last())),
        r.is_ok() ==> Roster::dropped(&*old(people_table), &*final(people_table), drop_type, date, rules),
        r is Err && !old(people_table).has(date) ==> r == Err::<(), RosterError>(RosterError::DateNotFound),
        r is Err && old(people_table).has(date) ==> r == Err::<(), RosterError>(RosterError::NoEligibleDate),
        r is Err ==> *final(people_table) == *old(people_table),
{
    match drop_type {
        DropType::Clean => people_table.clean(date),
        DropType::Collapse => people_table.collapse(date),
        DropType::Postpone => people_table.postpone(date, rules),
    }
}

} // verus!
