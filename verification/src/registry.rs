//! Per-guild admission control for voice sessions.

use vstd::prelude::*;

verus! {

/// Records which guilds currently have an active (or reserved) voice
/// session. The registry is the single serialization point of admission
/// control: at most one session is recorded per guild, and a second
/// request for a busy guild is refused instead of joining twice.
pub struct SessionRegistry {
    busy: Vec<u64>,
}

impl View for SessionRegistry {
    type V = Seq<u64>;

    closed spec fn view(&self) -> Seq<u64> {
        self.busy@
    }
}

impl SessionRegistry {
    /// Well-formedness: no guild is recorded twice.
    pub open spec fn wf(&self) -> bool {
        self@.no_duplicates()
    }

    /// Whether a session is recorded for the guild.
    pub open spec fn is_busy(&self, guild_id: u64) -> bool {
        self@.contains(guild_id)
    }

    /// An empty registry: every guild is idle.
    pub fn new() -> (r: SessionRegistry)
        ensures
            r.wf(),
            r@ == Seq::<u64>::empty(),
    {
        SessionRegistry { busy: Vec::new() }
    }

    /// The index of the guild's entry, if one is recorded.
    fn find(&self, guild_id: u64) -> (r: Option<usize>)
        ensures
            match r {
                Some(i) => i < self@.len() && self@[i as int] == guild_id,
                None => !self.is_busy(guild_id),
            },
    {
        let mut i: usize = 0;
        while i < self.busy.len()
            invariant
                i <= self@.len(),
                forall|j: int| 0 <= j < i ==> self@[j] != guild_id,
            decreases self@.len() - i,
        {
            if self.busy[i] == guild_id {
                return Some(i);
            }
            i += 1;
        }
        None
    }

    /// Read-only diagnostic: is a session recorded for the guild?
    pub fn is_active(&self, guild_id: u64) -> (r: bool)
        ensures
            r == self.is_busy(guild_id),
    {
        self.find(guild_id).is_some()
    }

    /// Atomic admission check: if the guild is idle, record it busy and
    /// grant admission; if it is already busy, refuse and change nothing.
    /// Two admission checks for the same guild can never both succeed.
    pub fn try_acquire(&mut self, guild_id: u64) -> (granted: bool)
        requires
            old(self).wf(),
        ensures
            final(self).wf(),
            granted == !old(self).is_busy(guild_id),
            final(self).is_busy(guild_id),
            forall|g: u64| g != guild_id ==> final(self).is_busy(g) == old(self).is_busy(g),
            granted ==> final(self)@ == old(self)@.push(guild_id),
            !granted ==> final(self)@ == old(self)@,
    {
        if self.is_active(guild_id) {
            false
        } else {
            self.busy.push(guild_id);
            proof {
                let prev = old(self)@;
                assert(self@[self@.len() - 1] == guild_id);
                assert forall|g: u64| g != guild_id implies
                    self.is_busy(g) == prev.contains(g) by {
                    if prev.contains(g) {
                        let k = choose|k: int| 0 <= k < prev.len() && prev[k] == g;
                        assert(self@[k] == g);
                    }
                    if self@.contains(g) {
                        let k = choose|k: int| 0 <= k < self@.len() && self@[k] == g;
                        assert(k < prev.len() && prev[k] == g);
                    }
                }
                assert forall|p: int, q: int|
                    0 <= p < self@.len() && 0 <= q < self@.len() && p != q implies
                    self@[p] != self@[q] by {
                    if p < prev.len() && q < prev.len() {
                        assert(self@[p] == prev[p] && self@[q] == prev[q]);
                    } else if p < prev.len() {
                        assert(self@[q] == guild_id && self@[p] == prev[p]);
                        assert(!prev.contains(guild_id));
                    } else {
                        assert(self@[p] == guild_id && self@[q] == prev[q]);
                        assert(!prev.contains(guild_id));
                    }
                }
            }
            true
        }
    }

    /// Releases the guild's session record. Idempotent: releasing an idle
    /// guild is a no-op, not an error, so that shutdown races cannot turn
    /// into failures. Afterwards the guild is idle; no other guild changes.
    pub fn release(&mut self, guild_id: u64)
        requires
            old(self).wf(),
        ensures
            final(self).wf(),
            !final(self).is_busy(guild_id),
            forall|g: u64| g != guild_id ==> final(self).is_busy(g) == old(self).is_busy(g),
            !old(self).is_busy(guild_id) ==> final(self)@ == old(self)@,
            old(self).is_busy(guild_id) ==> final(self)@.len() == old(self)@.len() - 1,
    {
        match self.find(guild_id) {
            Some(i) => {
                let ghost prev = self@;
                self.busy.remove(i);
                proof {
                    prev.remove_ensures(i as int);
                    assert forall|p: int, q: int|
                        0 <= p < self@.len() && 0 <= q < self@.len() && p != q implies
                        self@[p] != self@[q] by {
                        let p0: int = if p < i { p } else { p + 1 };
                        let q0: int = if q < i { q } else { q + 1 };
                        assert(self@[p] == prev[p0] && self@[q] == prev[q0]);
                    }
                    assert(!self.is_busy(guild_id)) by {
                        if self@.contains(guild_id) {
                            let k = choose|k: int| 0 <= k < self@.len() && self@[k] == guild_id;
                            let k0: int = if k < i { k } else { k + 1 };
                            assert(self@[k] == prev[k0]);
                            assert(prev[i as int] == guild_id && prev[k0] == guild_id && k0 != i);
                        }
                    }
                    assert forall|g: u64| g != guild_id implies
                        self.is_busy(g) == prev.contains(g) by {
                        if prev.contains(g) {
                            let k = choose|k: int| 0 <= k < prev.len() && prev[k] == g;
                            if k < i {
                                assert(self@[k] == prev[k]);
                            } else {
                                assert(k != i);
                                assert(self@[k - 1] == prev[k]);
                            }
                        }
                        if self@.contains(g) {
                            let k = choose|k: int| 0 <= k < self@.len() && self@[k] == g;
                            let k0: int = if k < i { k } else { k + 1 };
                            assert(self@[k] == prev[k0]);
                        }
                    }
                }
            },
            None => {},
        }
    }

    /// At any instant at most one session is recorded for a guild: a
    /// well-formed registry holds a guild id at most once.
    pub proof fn lemma_at_most_one_session(&self, guild_id: u64)
        requires
            self.wf(),
        ensures
            self@.to_multiset().count(guild_id) <= 1,
    {
        self@.lemma_multiset_has_no_duplicates();
    }
}

} // verus!
