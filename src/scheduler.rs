use vstd::prelude::*;
use vstd::arithmetic::div_mod::{
    lemma_add_mod_noop, lemma_add_mod_noop_right, lemma_mod_add_multiples_vanish, lemma_mod_equivalence,
    lemma_mod_sub_multiples_vanish, lemma_small_mod,
};
use crate::turn::{
    next, pending_call, runnable, session_wf, Action, Event, Phase, Session, SessionView,
};

verus! {

/// Which sessions owe an engine call.
pub open spec fn runnables(ss: Seq<SessionView>) -> Seq<bool> {
    ss.map_values(|s: SessionView| runnable(s))
}

/// The first runnable index in cyclic order from `c` on, looking `k` places
/// on and further.
pub open spec fn scan(r: Seq<bool>, c: int, k: nat) -> Option<int>
    decreases r.len() - k,
{
    if k >= r.len() {
        None
    } else {
        let i = (c + k) % (r.len() as int);
        if r[i] {
            Some(i)
        } else {
            scan(r, c, k + 1)
        }
    }
}

/// Round-robin choice: the first runnable index from the cursor `c` on,
/// which stands just after the one that ran last.
pub open spec fn pick(r: Seq<bool>, c: int) -> Option<int> {
    scan(r, c, 0)
}

/// The cursor after `t` choices, starting from `c`.
pub open spec fn cursor_after(r: Seq<bool>, c: int, t: nat) -> int
    decreases t,
{
    if t == 0 {
        c
    } else {
        match pick(r, cursor_after(r, c, (t - 1) as nat)) {
            Some(i) => i + 1,
            None => cursor_after(r, c, (t - 1) as nat),
        }
    }
}

/// The session chosen at the `t`-th choice (counted from 0), starting from
/// cursor `c`.
pub open spec fn chosen(r: Seq<bool>, c: int, t: nat) -> Option<int> {
    pick(r, cursor_after(r, c, t))
}

/// While every session owes an engine call, the choices go round the list
/// in order.
pub proof fn lemma_chosen_in_turn(r: Seq<bool>, c: int, t: nat)
    requires
        r.len() > 0,
        0 <= c <= r.len(),
        forall|i: int| 0 <= i < r.len() ==> #[trigger] r[i],
    ensures
        chosen(r, c, t) == Some((c + t) % (r.len() as int)),
    decreases t,
{
    let n = r.len() as int;
    if t == 0 {
        assert(r[(c + 0) % n]);
    } else {
        lemma_chosen_in_turn(r, c, (t - 1) as nat);
        let p = (c + t - 1) % n;
        assert(0 <= p < n);
        assert(cursor_after(r, c, t) == p + 1);
        assert(r[(p + 1 + 0) % n]);
        lemma_add_mod_noop_right(1, c + t - 1, n);
    }
}

/// Round-robin fairness: while every session owes an engine call, no session
/// makes two engine calls without every session making one in between. Of
/// the choices after the `t1`-th up to the `t2`-th, which chose the same
/// session, one chose session `j`, whichever `j` is.
pub proof fn lemma_round_robin_fair(ss: Seq<SessionView>, c: int, t1: nat, t2: nat, j: int)
    requires
        ss.len() > 0,
        0 <= c <= ss.len(),
        forall|i: int| 0 <= i < ss.len() ==> runnable(#[trigger] ss[i]),
        t1 < t2,
        chosen(runnables(ss), c, t1) == chosen(runnables(ss), c, t2),
        0 <= j < ss.len(),
    ensures
        exists|t: nat| t1 < t <= t2 && chosen(runnables(ss), c, t) == Some(j),
{
    let r = runnables(ss);
    let n = ss.len() as int;
    assert forall|i: int| 0 <= i < r.len() implies #[trigger] r[i] by {
        assert(runnable(ss[i]));
    }
    lemma_chosen_in_turn(r, c, t1);
    lemma_chosen_in_turn(r, c, t2);
    let k = (c + t1) % n;
    lemma_mod_equivalence(c + t2, c + t1, n);
    assert((c + t2) - (c + t1) == t2 - t1);
    if t2 - t1 < n {
        lemma_small_mod((t2 - t1) as nat, n as nat);
    }
    assert(t2 - t1 >= n);
    let d = if j >= k {
        j - k
    } else {
        j - k + n
    };
    if d == 0 {
        assert(chosen(r, c, t2) == Some(j));
    } else {
        let t = (t1 + d) as nat;
        lemma_chosen_in_turn(r, c, t);
        lemma_add_mod_noop(c + t1, d, n);
        lemma_small_mod(d as nat, n as nat);
        if j >= k {
            lemma_small_mod(j as nat, n as nat);
        } else {
            lemma_mod_add_multiples_vanish(j, n);
            lemma_small_mod(j as nat, n as nat);
        }
        assert(c + t1 + d == c + t);
        assert(chosen(r, c, t) == Some(j));
    }
}

/// Where the round-robin cursor goes when session `i` leaves: it keeps
/// pointing at the same session, or at the one that followed `i`.
pub open spec fn cursor_after_removal(c: int, i: int) -> int {
    if c > i {
        c - 1
    } else {
        c
    }
}

/// All connected sessions, and the round-robin state that shares the engine
/// among them: at most one engine call at a time, one session after another.
pub struct Scheduler {
    sessions: Vec<Session>,
    cursor: usize,
    next_id: u64,
}

/// The mathematical value of a [`Scheduler`].
pub struct SchedulerView {
    pub sessions: Seq<SessionView>,
    pub cursor: int,
    pub next_id: u64,
}

impl View for Scheduler {
    type V = SchedulerView;

    closed spec fn view(&self) -> SchedulerView {
        SchedulerView {
            sessions: self.sessions@.map_values(|s: Session| s@),
            cursor: self.cursor as int,
            next_id: self.next_id,
        }
    }
}

/// The cursor stands within the list or just past it, every session is
/// well-formed, and the engine session ids are distinct, in order of opening,
/// and below the next id to hand out.
pub open spec fn scheduler_wf(v: SchedulerView) -> bool {
    &&& 0 <= v.cursor <= v.sessions.len()
    &&& forall|i: int| 0 <= i < v.sessions.len() ==> session_wf(#[trigger] v.sessions[i])
    &&& forall|i: int| 0 <= i < v.sessions.len() ==> #[trigger] v.sessions[i].id < v.next_id
    &&& forall|i: int, j: int|
        0 <= i < j < v.sessions.len() ==> #[trigger] v.sessions[i].id < #[trigger] v.sessions[j].id
}

impl Scheduler {
    pub open spec fn wf(&self) -> bool {
        scheduler_wf(self@)
    }

    pub fn new() -> (r: Scheduler)
        ensures
            r.wf(),
            r@.sessions == Seq::<SessionView>::empty(),
            r@.cursor == 0,
            r@.next_id == 0,
    {
        let r = Scheduler { sessions: Vec::new(), cursor: 0, next_id: 0 };
        assert(r@.sessions =~= Seq::<SessionView>::empty());
        r
    }

    pub fn len(&self) -> (r: usize)
        ensures
            r == self@.sessions.len(),
    {
        self.sessions.len()
    }

    pub fn session(&self, i: usize) -> (r: &Session)
        requires
            i < self@.sessions.len(),
        ensures
            r@ == self@.sessions[i as int],
    {
        &self.sessions[i]
    }

    /// Registers a new connection with a fresh session that owns engine
    /// session `id`, the one returned. `None` when every id is spent.
    pub fn open(&mut self, template: String) -> (r: Option<u64>)
        requires
            old(self).wf(),
        ensures
            final(self).wf(),
            old(self)@.next_id == u64::MAX ==> r is None && final(self)@ == old(self)@,
            old(self)@.next_id < u64::MAX ==> r == Some(old(self)@.next_id) && final(self)@
                == (SchedulerView {
                sessions: old(self)@.sessions.push(
                    SessionView {
                        id: old(self)@.next_id,
                        template: template@,
                        units: Seq::empty(),
                        phase: Phase::AwaitingPrompt,
                    },
                ),
                cursor: old(self)@.cursor,
                next_id: (old(self)@.next_id + 1) as u64,
            }),
    {
        if self.next_id == u64::MAX {
            return None;
        }
        let id = self.next_id;
        let s = Session::new(id, template);
        self.sessions.push(s);
        self.next_id = id + 1;
        assert(self@.sessions =~= old(self)@.sessions.push(s@));
        Some(id)
    }

    /// The index of the session that owns engine session `id`, if any.
    pub fn find(&self, id: u64) -> (r: Option<usize>)
        ensures
            r matches Some(i) ==> i < self@.sessions.len() && self@.sessions[i as int].id == id,
            r is None ==> forall|i: int|
                0 <= i < self@.sessions.len() ==> #[trigger] self@.sessions[i].id != id,
    {
        let mut i: usize = 0;
        while i < self.sessions.len()
            invariant
                i <= self.sessions.len(),
                self@.sessions.len() == self.sessions@.len(),
                forall|j: int| 0 <= j < i ==> #[trigger] self@.sessions[j].id != id,
            decreases self.sessions.len() - i,
        {
            assert(self@.sessions[i as int] == self.sessions@[i as int]@);
            if self.sessions[i].id() == id {
                return Some(i);
            }
            i += 1;
        }
        None
    }

    /// The round-robin choice, without moving the cursor.
    fn scan_next(&self) -> (r: Option<usize>)
        requires
            self.wf(),
        ensures
            r matches Some(i) ==> pick(runnables(self@.sessions), self@.cursor) == Some(i as int)
                && i < self.sessions@.len(),
            r is None ==> pick(runnables(self@.sessions), self@.cursor) is None,
    {
        let n = self.sessions.len();
        let ghost r = runnables(self@.sessions);
        let ghost c = self.cursor as int;
        if n == 0 {
            return None;
        }
        let rem = n - self.cursor;
        let mut k: usize = 0;
        while k < n
            invariant
                n == self.sessions@.len(),
                n == r.len(),
                n > 0,
                self.wf(),
                c == self.cursor,
                rem == n - c,
                r == runnables(self@.sessions),
                k <= n,
                scan(r, c, 0) == scan(r, c, k as nat),
            decreases n - k,
        {
            let i = if k < rem {
                self.cursor + k
            } else {
                k - rem
            };
            proof {
                let x = c + k;
                if k < rem {
                    lemma_small_mod(x as nat, n as nat);
                } else {
                    lemma_mod_sub_multiples_vanish(x, n as int);
                    lemma_small_mod((x - n) as nat, n as nat);
                }
                assert(i == (c + k) % (n as int));
            }
            assert(self.sessions@[i as int]@ == self@.sessions[i as int]);
            let ph = self.sessions[i].phase();
            if matches!(ph, Phase::Feeding { .. }) || ph == Phase::Generating {
                return Some(i);
            }
            k += 1;
        }
        None
    }

    /// Chooses the session whose engine call runs next: the first one, in
    /// cyclic order from the cursor on, that owes a call. The cursor then
    /// stands just after it.
    pub fn pick_next(&mut self) -> (r: Option<usize>)
        requires
            old(self).wf(),
        ensures
            final(self).wf(),
            final(self)@.sessions == old(self)@.sessions,
            final(self)@.next_id == old(self)@.next_id,
            r matches Some(i) ==> pick(runnables(old(self)@.sessions), old(self)@.cursor) == Some(
                i as int,
            ) && final(self)@.cursor == i + 1,
            r is None ==> pick(runnables(old(self)@.sessions), old(self)@.cursor) is None
                && final(self)@.cursor == old(self)@.cursor,
    {
        let n = self.sessions.len();
        let r = self.scan_next();
        if let Some(i) = r {
            assert(i < n);
            self.cursor = i + 1;
        }
        r
    }

    /// The engine call that session `i` owes.
    pub fn engine_call(&self, i: usize) -> (r: Action)
        requires
            self.wf(),
            i < self@.sessions.len(),
            runnable(self@.sessions[i as int]),
        ensures
            r@ == pending_call(self@.sessions[i as int]),
    {
        assert(self.sessions@[i as int]@ == self@.sessions[i as int]);
        self.sessions[i].engine_call()
    }

    /// Takes one step of session `i` on `event`. No other session changes.
    pub fn step_session(&mut self, i: usize, event: Event) -> (a: Action)
        requires
            old(self).wf(),
            i < old(self)@.sessions.len(),
        ensures
            final(self).wf(),
            final(self)@.sessions == old(self)@.sessions.update(
                i as int,
                next(old(self)@.sessions[i as int], event@).0,
            ),
            a@ == next(old(self)@.sessions[i as int], event@).1,
            final(self)@.cursor == old(self)@.cursor,
            final(self)@.next_id == old(self)@.next_id,
    {
        let ghost before = self@.sessions;
        assert(self.sessions@[i as int]@ == before[i as int]);
        let mut s = self.sessions.remove(i);
        let a = s.step(event);
        self.sessions.insert(i, s);
        assert(self@.sessions =~= before.update(i as int, s@));
        a
    }

    /// Tears down connection `i` and returns the engine session to release.
    /// The other sessions keep their state and their order.
    pub fn close(&mut self, i: usize) -> (id: u64)
        requires
            old(self).wf(),
            i < old(self)@.sessions.len(),
        ensures
            final(self).wf(),
            id == old(self)@.sessions[i as int].id,
            final(self)@.sessions == old(self)@.sessions.remove(i as int),
            final(self)@.cursor == cursor_after_removal(old(self)@.cursor, i as int),
            final(self)@.next_id == old(self)@.next_id,
    {
        let ghost before = self@.sessions;
        assert(self.sessions@[i as int]@ == before[i as int]);
        let s = self.sessions.remove(i);
        assert(self@.sessions =~= before.remove(i as int));
        if self.cursor > i {
            self.cursor = self.cursor - 1;
        }
        s.id()
    }
}

} // verus!
