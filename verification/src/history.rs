//! The bounded status history: the five most recent status snapshots,
//! oldest evicted first.

use vstd::prelude::*;

verus! {

/// What one push does to the stored sequence: append, evicting the
/// oldest entry once five are held.
pub open spec fn push_model(h: Seq<Seq<char>>, s: Seq<char>) -> Seq<Seq<char>> {
    if h.len() < 5 {
        h.push(s)
    } else {
        h.drop_first().push(s)
    }
}

/// The history a whole sequence of pushes leaves behind, starting from
/// an empty buffer.
pub open spec fn run_pushes(msgs: Seq<Seq<char>>) -> Seq<Seq<char>>
    decreases msgs.len(),
{
    if msgs.len() == 0 {
        Seq::empty()
    } else {
        push_model(run_pushes(msgs.drop_last()), msgs.last())
    }
}

/// A fixed-capacity FIFO buffer of status snapshots.
pub struct StatusHistory {
    entries: Vec<String>,
}

impl View for StatusHistory {
    type V = Seq<Seq<char>>;

    closed spec fn view(&self) -> Seq<Seq<char>> {
        self.entries.deep_view()
    }
}

impl StatusHistory {
    /// The buffer never holds more than five snapshots.
    pub open spec fn wf(&self) -> bool {
        self@.len() <= 5
    }

    pub fn new() -> (h: StatusHistory)
        ensures
            h@ == Seq::<Seq<char>>::empty(),
            h.wf(),
    {
        let entries = Vec::new();
        proof {
            assert(entries.deep_view() =~= Seq::<Seq<char>>::empty());
        }
        StatusHistory { entries }
    }

    /// Append a snapshot, evicting the oldest once five are stored.
    pub fn push(&mut self, s: String)
        requires
            old(self).wf(),
        ensures
            final(self)@ == push_model(old(self)@, s@),
            final(self).wf(),
    {
        if self.entries.len() >= 5 {
            self.entries.remove(0);
        }
        self.entries.push(s);
        proof {
            assert(final(self)@ =~= push_model(old(self)@, s@));
        }
    }

    /// How many snapshots are held.
    pub fn len(&self) -> (n: usize)
        ensures
            n == self@.len(),
    {
        self.entries.len()
    }

    /// The snapshot at a position, oldest first.
    pub fn entry(&self, i: usize) -> (s: &String)
        requires
            i < self@.len(),
        ensures
            s@ == self@[i as int],
    {
        &self.entries[i]
    }
}

/// FIFO eviction law: any sequence of pushes into an empty buffer leaves
/// exactly the last five messages (all of them when there are fewer), in
/// arrival order.
pub proof fn lemma_history_fifo(msgs: Seq<Seq<char>>)
    ensures
        run_pushes(msgs) == msgs.skip(if msgs.len() <= 5 {
            0
        } else {
            msgs.len() - 5
        }),
    decreases msgs.len(),
{
    if msgs.len() == 0 {
        assert(run_pushes(msgs) =~= msgs.skip(0));
    } else {
        let rest = msgs.drop_last();
        lemma_history_fifo(rest);
        if msgs.len() <= 5 {
            assert(run_pushes(msgs) =~= msgs.skip(0));
        } else {
            assert(run_pushes(msgs) =~= msgs.skip(msgs.len() - 5));
        }
    }
}

/// After five or more pushes the buffer holds exactly five entries, each
/// one of the pushed messages, in relative arrival order.
pub proof fn lemma_history_after_many(msgs: Seq<Seq<char>>)
    requires
        msgs.len() >= 5,
    ensures
        run_pushes(msgs).len() == 5,
        forall|i: int| 0 <= i < 5 ==> run_pushes(msgs)[i] == msgs[msgs.len() - 5 + i],
{
    lemma_history_fifo(msgs);
}

/// A push carries the whole-run law one step further.
pub proof fn lemma_push_tracks_run(msgs: Seq<Seq<char>>, s: Seq<char>)
    ensures
        push_model(run_pushes(msgs), s) == run_pushes(msgs.push(s)),
{
    assert(msgs.push(s).drop_last() =~= msgs);
    assert(msgs.push(s).last() == s);
}

} // verus!
