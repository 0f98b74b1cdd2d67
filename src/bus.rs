use vstd::prelude::*;

verus! {

/// The queue that a handle holds after `m` is delivered to it: `m` is
/// appended, and when the queue already held `cap` messages its oldest one
/// is discarded to make room.
pub open spec fn lossy_push(q: Seq<Seq<char>>, m: Seq<char>, cap: nat) -> Seq<Seq<char>> {
    if q.len() < cap {
        q.push(m)
    } else {
        q.push(m).subrange(1, q.len() + 1int)
    }
}

/// Every handle's queue after one publish of `m`.
pub open spec fn deliver_all(subs: Seq<(u64, Seq<Seq<char>>)>, m: Seq<char>, cap: nat) -> Seq<
    (u64, Seq<Seq<char>>),
> {
    Seq::new(subs.len(), |i: int| (subs[i].0, lossy_push(subs[i].1, m, cap)))
}

/// The queue after the messages `ms` are delivered to it in order, none read.
pub open spec fn lossy_push_all(q: Seq<Seq<char>>, ms: Seq<Seq<char>>, cap: nat) -> Seq<
    Seq<char>,
>
    decreases ms.len(),
{
    if ms.len() == 0 {
        q
    } else {
        lossy_push(lossy_push_all(q, ms.drop_last(), cap), ms.last(), cap)
    }
}

/// Whether some handle in `subs` has the id `id`.
pub open spec fn has_id(subs: Seq<(u64, Seq<Seq<char>>)>, id: u64) -> bool {
    exists|i: int| 0 <= i < subs.len() && subs[i].0 == id
}

/// Where no element of `subs` has the id `id`, `has_id` says so.
proof fn lemma_none_match_absent(subs: Seq<(u64, Seq<Seq<char>>)>, id: u64)
    requires
        forall|k: int| 0 <= k < subs.len() ==> subs[k].0 != id,
    ensures
        !has_id(subs, id),
{
}

/// A subscription handle together with the messages delivered to it and not
/// yet read, oldest first.
pub struct Subscriber {
    id: u64,
    queue: Vec<String>,
}

impl Subscriber {
    pub closed spec fn view(&self) -> (u64, Seq<Seq<char>>) {
        (self.id, self.queue@.map_values(|s: String| s@))
    }

    /// Appends `m` to this handle's queue, discarding the oldest message when
    /// the queue already holds `cap` of them.
    fn deliver(&mut self, m: String, cap: usize)
        requires
            cap > 0,
            old(self).queue@.len() <= cap,
        ensures
            final(self)@ == (old(self)@.0, lossy_push(old(self)@.1, m@, cap as nat)),
            final(self).queue@.len() <= cap,
    {
        let ghost q0 = self@.1;
        self.queue.push(m);
        assert(self@.1 =~= q0.push(m@));
        if self.queue.len() > cap {
            self.queue.remove(0);
            assert(self@.1 =~= q0.push(m@).subrange(1, q0.len() + 1int));
        }
    }

    /// Takes the oldest message out of this handle's queue.
    fn take_oldest(&mut self) -> (r: Option<String>)
        ensures
            final(self)@.0 == old(self)@.0,
            final(self).queue@.len() <= old(self).queue@.len(),
            old(self)@.1.len() == 0 ==> r.is_none() && final(self)@ == old(self)@,
            old(self)@.1.len() > 0 ==> r.is_some() && r.unwrap()@ == old(self)@.1[0]
                && final(self)@.1 == old(self)@.1.subrange(1, old(self)@.1.len() as int),
    {
        if self.queue.len() == 0 {
            None
        } else {
            let ghost q0 = self@.1;
            let m = self.queue.remove(0);
            assert(self@.1 =~= q0.subrange(1, q0.len() as int));
            Some(m)
        }
    }
}

/// The publish bus: a set of live subscription handles, each with a private
/// queue that holds at most `capacity` messages.
pub struct Bus {
    capacity: usize,
    next_id: u64,
    subs: Vec<Subscriber>,
}

impl Bus {
    /// The live handles in order of subscription, each with its queue.
    pub closed spec fn subs(&self) -> Seq<(u64, Seq<Seq<char>>)> {
        self.subs@.map_values(|s: Subscriber| s@)
    }

    pub closed spec fn cap(&self) -> nat {
        self.capacity as nat
    }

    /// The id that the next subscription will get.
    pub closed spec fn next(&self) -> u64 {
        self.next_id
    }

    pub closed spec fn wf(&self) -> bool {
        &&& self.capacity > 0
        &&& forall|i: int| 0 <= i < self.subs@.len() ==> self.subs@[i].id < self.next_id
        &&& forall|i: int| 0 <= i < self.subs@.len() ==> self.subs@[i].queue@.len() <= self.capacity
        &&& forall|i: int, j: int|
            0 <= i < self.subs@.len() && 0 <= j < self.subs@.len() && i != j ==> self.subs@[i].id
                != self.subs@[j].id
    }

    /// A bus with no handles whose queues will hold `capacity` messages each.
    pub fn new(capacity: usize) -> (r: Bus)
        requires
            capacity > 0,
        ensures
            r.wf(),
            r.cap() == capacity,
            r.next() == 0,
            r.subs() == Seq::<(u64, Seq<Seq<char>>)>::empty(),
    {
        let r = Bus { capacity, next_id: 0, subs: Vec::new() };
        assert(r.subs() =~= Seq::<(u64, Seq<Seq<char>>)>::empty());
        r
    }

    /// Registers a new handle with an empty queue and returns its id. The
    /// handle sees only messages published after this call.
    pub fn subscribe(&mut self) -> (id: u64)
        requires
            old(self).wf(),
            old(self).next() < u64::MAX,
        ensures
            final(self).wf(),
            final(self).cap() == old(self).cap(),
            final(self).next() == old(self).next() + 1,
            id == old(self).next(),
            !has_id(old(self).subs(), id),
            final(self).subs() == old(self).subs().push((id, Seq::<Seq<char>>::empty())),
    {
        let id = self.next_id;
        let ghost s0 = self.subs();
        let sub = Subscriber { id, queue: Vec::new() };
        assert(sub@.1 =~= Seq::<Seq<char>>::empty());
        self.subs.push(sub);
        self.next_id = id + 1;
        assert(self.subs() =~= s0.push((id, Seq::<Seq<char>>::empty())));
        assert(!has_id(s0, id)) by {
            if has_id(s0, id) {
                let i = choose|i: int| 0 <= i < s0.len() && s0[i].0 == id;
                assert(self.subs@[i].id == s0[i].0);
            }
        }
        id
    }

    /// Releases the handle `id`: its queue and whatever it still holds are
    /// dropped, and no later publish reaches it. Returns whether it was live.
    pub fn unsubscribe(&mut self, id: u64) -> (r: bool)
        requires
            old(self).wf(),
        ensures
            final(self).wf(),
            final(self).cap() == old(self).cap(),
            final(self).next() == old(self).next(),
            r == has_id(old(self).subs(), id),
            !has_id(final(self).subs(), id),
            !r ==> final(self).subs() == old(self).subs(),
            r ==> exists|i: int|
                0 <= i < old(self).subs().len() && old(self).subs()[i].0 == id
                    && final(self).subs() == old(self).subs().remove(i),
    {
        let ghost s0 = self.subs();
        let mut i: usize = 0;
        while i < self.subs.len()
            invariant
                0 <= i <= self.subs@.len(),
                self.subs() == s0,
                s0 == old(self).subs(),
                self.wf(),
                self.capacity == old(self).capacity,
                self.next_id == old(self).next_id,
                forall|k: int| 0 <= k < i ==> s0[k].0 != id,
            decreases self.subs@.len() - i,
        {
            if self.subs[i].id == id {
                let ghost before = self.subs@;
                assert(s0[i as int] == before[i as int]@);
                self.subs.remove(i);
                assert(self.subs() =~= s0.remove(i as int));
                assert(!has_id(self.subs(), id)) by {
                    if has_id(self.subs(), id) {
                        let j = choose|j: int| 0 <= j < self.subs().len() && self.subs()[j].0 == id;
                        if j < i {
                            assert(before[j].id == id);
                        } else {
                            assert(before[j + 1].id == id);
                        }
                    }
                }
                return true;
            }
            i = i + 1;
        }
        proof {
            lemma_none_match_absent(s0, id);
        }
        false
    }

    /// Hands a copy of `m` to every live handle. Never blocks and never
    /// fails: a full queue drops its oldest message. Returns how many handles
    /// received the message.
    pub fn publish(&mut self, m: &String) -> (n: usize)
        requires
            old(self).wf(),
        ensures
            final(self).wf(),
            final(self).cap() == old(self).cap(),
            final(self).next() == old(self).next(),
            n == old(self).subs().len(),
            final(self).subs() == deliver_all(old(self).subs(), m@, old(self).cap()),
    {
        let ghost s0 = self.subs();
        let cap = self.capacity;
        let mut i: usize = 0;
        while i < self.subs.len()
            invariant
                0 <= i <= self.subs@.len(),
                self.subs@.len() == s0.len(),
                s0 == old(self).subs(),
                self.wf(),
                self.capacity == cap,
                self.next_id == old(self).next_id,
                forall|k: int| 0 <= k < i ==> self.subs()[k] == (s0[k].0, lossy_push(s0[k].1, m@, cap as nat)),
                forall|k: int| i <= k < s0.len() ==> self.subs()[k] == s0[k],
            decreases self.subs@.len() - i,
        {
            let ghost before = self.subs@;
            let ghost sb = self.subs();
            let mc = m.clone();
            assert(mc@ == m@);
            self.subs[i].deliver(mc, cap);
            assert forall|k: int| 0 <= k < self.subs@.len() && k != i implies self.subs@[k] == before[k] by {}
            assert forall|k: int| 0 <= k < self.subs@.len() && k != i implies self.subs()[k] == sb[k] by {
                assert(self.subs()[k] == self.subs@[k]@);
                assert(sb[k] == before[k]@);
            }
            assert(self.subs()[i as int] == self.subs@[i as int]@);
            assert(sb[i as int] == before[i as int]@);
            assert(sb[i as int] == s0[i as int]);
            assert forall|k: int| 0 <= k < i + 1 implies self.subs()[k] == (s0[k].0, lossy_push(s0[k].1, m@, cap as nat)) by {
                if k < i {
                    assert(sb[k] == (s0[k].0, lossy_push(s0[k].1, m@, cap as nat)));
                }
            }
            i = i + 1;
        }
        assert(self.subs() =~= deliver_all(s0, m@, cap as nat));
        self.subs.len()
    }

    /// Takes the oldest unread message of handle `id`, or `None` when the
    /// handle is not live or its queue is empty.
    pub fn try_recv(&mut self, id: u64) -> (r: Option<String>)
        requires
            old(self).wf(),
        ensures
            final(self).wf(),
            final(self).cap() == old(self).cap(),
            final(self).next() == old(self).next(),
            !has_id(old(self).subs(), id) ==> r.is_none() && final(self).subs() == old(self).subs(),
            forall|i: int|
                0 <= i < old(self).subs().len() && old(self).subs()[i].0 == id ==> {
                    let q = old(self).subs()[i].1;
                    if q.len() == 0 {
                        r.is_none() && final(self).subs() == old(self).subs()
                    } else {
                        r.is_some() && r.unwrap()@ == q[0] && final(self).subs() == old(self).subs().update(
                            i,
                            (id, q.subrange(1, q.len() as int)),
                        )
                    }
                },
    {
        let ghost s0 = self.subs();
        let mut i: usize = 0;
        while i < self.subs.len()
            invariant
                0 <= i <= self.subs@.len(),
                self.subs() == s0,
                s0 == old(self).subs(),
                self.wf(),
                self.capacity == old(self).capacity,
                self.next_id == old(self).next_id,
                forall|k: int| 0 <= k < i ==> s0[k].0 != id,
            decreases self.subs@.len() - i,
        {
            if self.subs[i].id == id {
                let ghost before = self.subs@;
                assert(s0[i as int] == before[i as int]@);
                assert(has_id(s0, id));
                let r = self.subs[i].take_oldest();
                assert(self.subs() =~= s0.update(i as int, self.subs@[i as int]@));
                assert forall|k: int| 0 <= k < self.subs@.len() && k != i implies self.subs@[k] == before[k] by {}
                assert forall|k: int| 0 <= k < s0.len() && s0[k].0 == id implies k == i by {
                    if k != i {
                        assert(s0[k] == before[k]@);
                        assert(before[k].id == before[i as int].id);
                    }
                }
                assert(self.subs@[i as int]@ == self.subs()[i as int]);
                proof {
                    let q = s0[i as int].1;
                    if q.len() == 0 {
                        assert(self.subs() =~= s0);
                    } else {
                        assert(self.subs() =~= s0.update(i as int, (id, q.subrange(1, q.len() as int))));
                    }
                }
                return r;
            }
            i = i + 1;
        }
        proof {
            lemma_none_match_absent(s0, id);
        }
        None
    }

    /// The number of unread messages of handle `id`, or `None` when it is not
    /// live.
    pub fn pending(&self, id: u64) -> (r: Option<usize>)
        requires
            self.wf(),
        ensures
            !has_id(self.subs(), id) ==> r.is_none(),
            forall|i: int|
                0 <= i < self.subs().len() && self.subs()[i].0 == id ==> r == Some(
                    self.subs()[i].1.len() as usize,
                ),
    {
        let mut i: usize = 0;
        while i < self.subs.len()
            invariant
                0 <= i <= self.subs@.len(),
                self.wf(),
                forall|k: int| 0 <= k < i ==> self.subs()[k].0 != id,
            decreases self.subs@.len() - i,
        {
            if self.subs[i].id == id {
                assert(self.subs()[i as int] == self.subs@[i as int]@);
                assert(has_id(self.subs(), id));
                assert forall|k: int| 0 <= k < self.subs@.len() && self.subs()[k].0 == id implies k == i by {
                    if k != i {
                        assert(self.subs()[k] == self.subs@[k]@);
                        assert(self.subs@[k].id == self.subs@[i as int].id);
                    }
                }
                return Some(self.subs[i].queue.len());
            }
            i = i + 1;
        }
        proof {
            lemma_none_match_absent(self.subs(), id);
        }
        None
    }

    /// Publishes each message of `ms` in turn, with no read in between.
    /// Returns how many handles each message reached.
    pub fn publish_all(&mut self, ms: &Vec<String>) -> (n: usize)
        requires
            old(self).wf(),
        ensures
            final(self).wf(),
            final(self).cap() == old(self).cap(),
            final(self).next() == old(self).next(),
            n == old(self).subs().len(),
            final(self).subs().len() == old(self).subs().len(),
            forall|i: int|
                0 <= i < old(self).subs().len() ==> #[trigger] final(self).subs()[i] == (
                    old(self).subs()[i].0,
                    lossy_push_all(
                        old(self).subs()[i].1,
                        ms@.map_values(|s: String| s@),
                        old(self).cap(),
                    ),
                ),
    {
        let ghost s0 = self.subs();
        let ghost msv = ms@.map_values(|s: String| s@);
        let mut j: usize = 0;
        while j < ms.len()
            invariant
                0 <= j <= ms@.len(),
                msv == ms@.map_values(|s: String| s@),
                s0 == old(self).subs(),
                self.wf(),
                self.capacity == old(self).capacity,
                self.next_id == old(self).next_id,
                self.subs().len() == s0.len(),
                forall|i: int|
                    0 <= i < s0.len() ==> #[trigger] self.subs()[i] == (
                        s0[i].0,
                        lossy_push_all(s0[i].1, msv.subrange(0, j as int), self.cap()),
                    ),
            decreases ms@.len() - j,
        {
            let ghost sb = self.subs();
            self.publish(&ms[j]);
            assert forall|i: int| 0 <= i < s0.len() implies #[trigger] self.subs()[i] == (
                s0[i].0,
                lossy_push_all(s0[i].1, msv.subrange(0, j + 1), self.cap()),
            ) by {
                assert(sb[i] == (s0[i].0, lossy_push_all(s0[i].1, msv.subrange(0, j as int), self.cap())));
                assert(msv.subrange(0, j + 1).drop_last() =~= msv.subrange(0, j as int));
                assert(msv.subrange(0, j + 1).last() == ms@[j as int]@);
            }
            j = j + 1;
        }
        assert(msv.subrange(0, ms@.len() as int) =~= msv);
        self.subs.len()
    }

    /// The number of live handles.
    pub fn subscriber_count(&self) -> (r: usize)
        ensures
            r == self.subs().len(),
    {
        self.subs.len()
    }

    /// The id that the next subscription will get.
    pub fn next_handle(&self) -> (r: u64)
        ensures
            r == self.next(),
    {
        self.next_id
    }

    /// The capacity of each handle's queue.
    pub fn capacity(&self) -> (r: usize)
        ensures
            r == self.cap(),
    {
        self.capacity
    }
}

/// One publish hands every live handle exactly one copy of `m`, placed
/// after the messages that the handle already held, whose order is kept;
/// only when the queue was full does its oldest message make room.
pub proof fn law_publish_delivers_once_in_order(b: Bus, m: Seq<char>)
    requires
        b.wf(),
    ensures
        deliver_all(b.subs(), m, b.cap()).len() == b.subs().len(),
        forall|i: int|
            0 <= i < b.subs().len() ==> {
                let q = b.subs()[i].1;
                let q2 = #[trigger] deliver_all(b.subs(), m, b.cap())[i];
                &&& q2.0 == b.subs()[i].0
                &&& q2.1.len() == if q.len() < b.cap() {
                    q.len() + 1int
                } else {
                    b.cap() as int
                }
                &&& q2.1 == q.subrange(q.len() + 1 - q2.1.len(), q.len() as int).push(m)
            },
{
    assert forall|i: int| 0 <= i < b.subs().len() implies {
        let q = b.subs()[i].1;
        let q2 = #[trigger] deliver_all(b.subs(), m, b.cap())[i];
        &&& q2.0 == b.subs()[i].0
        &&& q2.1.len() == if q.len() < b.cap() {
            q.len() + 1int
        } else {
            b.cap() as int
        }
        &&& q2.1 == q.subrange(q.len() + 1 - q2.1.len(), q.len() as int).push(m)
    } by {
        let q = b.subs()[i].1;
        assert(b.subs()[i] == b.subs@[i]@);
        assert(q.len() <= b.cap());
        if q.len() < b.cap() {
            assert(q.subrange(0, q.len() as int) =~= q);
        } else {
            assert(q.push(m).subrange(1, q.len() + 1int) =~= q.subrange(1, q.len() as int).push(m));
        }
    }
}

/// A message published while no handle is live reaches nobody and changes
/// nothing.
pub proof fn law_publish_without_subscribers(b: Bus, m: Seq<char>)
    requires
        b.subs().len() == 0,
    ensures
        deliver_all(b.subs(), m, b.cap()) == b.subs(),
{
    assert(deliver_all(b.subs(), m, b.cap()) =~= b.subs());
}

/// A handle that is not live (released, or never made) is not made live by
/// a publish: it receives nothing.
pub proof fn law_released_handle_receives_nothing(b: Bus, id: u64, m: Seq<char>)
    requires
        !has_id(b.subs(), id),
    ensures
        !has_id(deliver_all(b.subs(), m, b.cap()), id),
{
    if has_id(deliver_all(b.subs(), m, b.cap()), id) {
        let i = choose|i: int|
            0 <= i < deliver_all(b.subs(), m, b.cap()).len() && deliver_all(b.subs(), m, b.cap())[i].0
                == id;
        assert(b.subs()[i].0 == id);
    }
}

/// A queue of capacity `cap` that receives the messages `ms` with no read in
/// between holds the newest `cap` of everything it held and received, in
/// order: the oldest are discarded.
pub proof fn law_overflow_keeps_most_recent(q: Seq<Seq<char>>, ms: Seq<Seq<char>>, cap: nat)
    requires
        cap > 0,
        q.len() <= cap,
    ensures
        ({
            let all = q + ms;
            let keep = if all.len() < cap {
                all.len() as int
            } else {
                cap as int
            };
            lossy_push_all(q, ms, cap) == all.subrange(all.len() - keep, all.len() as int)
        }),
    decreases ms.len(),
{
    let all = q + ms;
    if ms.len() == 0 {
        assert(all =~= q);
        assert(all.subrange(0, all.len() as int) =~= all);
    } else {
        let ms0 = ms.drop_last();
        law_overflow_keeps_most_recent(q, ms0, cap);
        let all0 = q + ms0;
        assert(all =~= all0.push(ms.last()));
        let keep0 = if all0.len() < cap {
            all0.len() as int
        } else {
            cap as int
        };
        let p = all0.subrange(all0.len() - keep0, all0.len() as int);
        assert(lossy_push_all(q, ms, cap) == lossy_push(p, ms.last(), cap));
        if p.len() < cap {
            assert(p.push(ms.last()) =~= all.subrange(all.len() - (keep0 + 1), all.len() as int));
        } else {
            assert(p.push(ms.last()).subrange(1, p.len() + 1int) =~= all.subrange(
                all.len() - cap,
                all.len() as int,
            ));
        }
    }
}

} // verus!
