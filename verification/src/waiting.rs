//! The commands that were sent and have no answer yet.
use vstd::prelude::*;

use crate::cmd::{Reply, TvCmd};
use crate::error::TvError;

verus! {

/// What stands under each identifier of a list of commands: the last command with it.
pub open spec fn waiting_view<R>(entries: Seq<(String, TvCmd<R>)>) -> Map<Seq<char>, TvCmd<R>>
    decreases entries.len(),
{
    if entries.len() == 0 {
        Map::empty()
    } else {
        waiting_view(entries.drop_last()).insert(entries.last().0@, entries.last().1)
    }
}

/// No identifier occurs twice.
pub open spec fn distinct_ids<R>(entries: Seq<(String, TvCmd<R>)>) -> bool {
    forall|i: int, j: int|
        0 <= i < j < entries.len() ==> (#[trigger] entries[i]).0@ != (#[trigger] entries[j]).0@
}

/// A list without repeated identifiers holds each of its commands under its identifier, and no other.
proof fn lemma_waiting_view<R>(entries: Seq<(String, TvCmd<R>)>)
    requires
        distinct_ids(entries),
    ensures
        forall|i: int|
            0 <= i < entries.len() ==> waiting_view(entries).contains_key(
                (#[trigger] entries[i]).0@,
            ) && waiting_view(entries)[entries[i].0@] == entries[i].1,
        forall|id: Seq<char>| #[trigger]
            waiting_view(entries).contains_key(id) ==> exists|i: int|
                0 <= i < entries.len() && (#[trigger] entries[i]).0@ == id,
    decreases entries.len(),
{
    if entries.len() > 0 {
        let front = entries.drop_last();
        lemma_waiting_view(front);
        assert forall|i: int| 0 <= i < entries.len() implies waiting_view(entries).contains_key(
            (#[trigger] entries[i]).0@,
        ) && waiting_view(entries)[entries[i].0@] == entries[i].1 by {
            if i < front.len() {
                assert(front[i] == entries[i]);
                assert(entries[i].0@ != entries.last().0@);
            }
        }
        assert forall|id: Seq<char>| #[trigger]
            waiting_view(entries).contains_key(id) implies exists|i: int|
            0 <= i < entries.len() && (#[trigger] entries[i]).0@ == id by {
            if id == entries.last().0@ {
                assert(entries[entries.len() - 1].0@ == id);
            } else {
                assert(waiting_view(front).contains_key(id));
                let i = choose|i: int| 0 <= i < front.len() && (#[trigger] front[i]).0@ == id;
                assert(entries[i].0@ == id);
            }
        }
    }
}

/// The commands that wait for an answer, each under the identifier that it was sent with.
pub struct WaitingCmds<R> {
    entries: Vec<(String, TvCmd<R>)>,
}

impl<R> View for WaitingCmds<R> {
    type V = Map<Seq<char>, TvCmd<R>>;

    closed spec fn view(&self) -> Map<Seq<char>, TvCmd<R>> {
        waiting_view(self.entries@)
    }
}

/// `answers` holds one answer for each of the `waiting` commands: the news that the connection closed.
pub open spec fn closing_answers<R>(
    waiting: Map<Seq<char>, TvCmd<R>>,
    answers: Seq<(R, Reply)>,
) -> bool {
    exists|ids: Seq<Seq<char>>| #[trigger] closing_answers_in_order(waiting, answers, ids)
}

/// `ids` names each waiting command once, and `answers` holds their answers in that order.
pub open spec fn closing_answers_in_order<R>(
    waiting: Map<Seq<char>, TvCmd<R>>,
    answers: Seq<(R, Reply)>,
    ids: Seq<Seq<char>>,
) -> bool {
    &&& ids.no_duplicates()
    &&& ids.to_set() == waiting.dom()
    &&& ids.len() == answers.len()
    &&& forall|i: int|
        0 <= i < ids.len() ==> {
            &&& (#[trigger] answers[i]).0 == waiting[ids[i]].slot()
            &&& answers[i].1@ == waiting[ids[i]].reply(Err(TvError::ConnectionClosed))
        }
}

impl<R> WaitingCmds<R> {
    /// No identifier occurs twice.
    pub closed spec fn valid(&self) -> bool {
        distinct_ids(self.entries@)
    }

    pub fn new() -> (waiting: Self)
        ensures
            waiting.valid(),
            waiting@ == Map::<Seq<char>, TvCmd<R>>::empty(),
    {
        WaitingCmds { entries: Vec::new() }
    }

    /// Adds a command under an identifier that is not in use.
    pub fn insert(&mut self, id: String, cmd: TvCmd<R>)
        requires
            old(self).valid(),
            !old(self)@.contains_key(id@),
        ensures
            final(self).valid(),
            final(self)@ == old(self)@.insert(id@, cmd),
    {
        proof {
            lemma_waiting_view(self.entries@);
        }
        let ghost before = self.entries@;
        self.entries.push((id, cmd));
        assert(self.entries@.drop_last() == before);
        assert forall|i: int, j: int| 0 <= i < j < self.entries@.len() implies (
        #[trigger] self.entries@[i]).0@ != (#[trigger] self.entries@[j]).0@ by {
            assert(self.entries@[i] == before[i]);
            if j < before.len() {
                assert(self.entries@[j] == before[j]);
            }
        }
    }

    /// Takes out the command with an identifier.
    pub fn remove(&mut self, id: &String) -> (result: Option<TvCmd<R>>)
        requires
            old(self).valid(),
        ensures
            final(self).valid(),
            final(self)@ == old(self)@.remove(id@),
            match result {
                Some(cmd) => old(self)@.contains_key(id@) && cmd == old(self)@[id@],
                None => !old(self)@.contains_key(id@),
            },
    {
        let ghost before = self.entries@;
        proof {
            lemma_waiting_view(before);
        }
        let mut i: usize = 0;
        while i < self.entries.len()
            invariant
                self.entries@ == before,
                before == old(self).entries@,
                distinct_ids(before),
                i <= before.len(),
                forall|k: int| 0 <= k < i ==> (#[trigger] before[k]).0@ != id@,
            decreases before.len() - i,
        {
            if self.entries[i].0 == *id {
                let (_, cmd) = self.entries.remove(i);
                let ghost after = self.entries@;
                proof {
                    lemma_waiting_view(before);
                    assert forall|k: int| 0 <= k < after.len() implies #[trigger] after[k] == before[if k < i {
                        k
                    } else {
                        k + 1
                    }] by {}
                    assert forall|j: int, k: int| 0 <= j < k < after.len() implies (
                    #[trigger] after[j]).0@ != (#[trigger] after[k]).0@ by {}
                    lemma_waiting_view(after);
                    assert forall|other: Seq<char>|
                        waiting_view(after).contains_key(other) == waiting_view(before).remove(
                            id@,
                        ).contains_key(other) by {
                        if waiting_view(before).contains_key(other) && other != id@ {
                            let k = choose|k: int|
                                0 <= k < before.len() && (#[trigger] before[k]).0@ == other;
                            let at = if k < i {
                                k
                            } else {
                                k - 1
                            };
                            assert(after[at] == before[k]);
                        }
                    }
                    assert forall|other: Seq<char>|
                        waiting_view(after).contains_key(other) implies waiting_view(after)[other]
                        == waiting_view(before)[other] by {}
                    assert(waiting_view(after) =~= waiting_view(before).remove(id@));
                }
                return Some(cmd);
            }
            i += 1;
        }
        assert(waiting_view(before) =~= waiting_view(before).remove(id@));
        None
    }

    /// Answers every command with the news that the connection closed.
    pub fn close(self) -> (answers: Vec<(R, Reply)>)
        requires
            self.valid(),
        ensures
            closing_answers(self@, answers@),
    {
        let ghost waiting = self@;
        let entries = self.entries;
        let ghost seen = entries@;
        let ghost ids = seen.map_values(|entry: (String, TvCmd<R>)| entry.0@);
        let mut answers: Vec<(R, Reply)> = Vec::new();
        proof {
            lemma_waiting_view(seen);
        }
        for entry in it: entries
            invariant
                it.seq() == seen,
                ids == seen.map_values(|entry: (String, TvCmd<R>)| entry.0@),
                forall|i: int|
                    0 <= i < seen.len() ==> waiting.contains_key((#[trigger] seen[i]).0@)
                        && waiting[seen[i].0@] == seen[i].1,
                answers@.len() == it.index(),
                forall|i: int|
                    0 <= i < it.index() ==> {
                        &&& (#[trigger] answers@[i]).0 == waiting[ids[i]].slot()
                        &&& answers@[i].1@ == waiting[ids[i]].reply(
                            Err(TvError::ConnectionClosed),
                        )
                    },
        {
            let ghost i = it.index() as int;
            assert(seen[i] == entry);
            let (_, cmd) = entry;
            answers.push(cmd.process(Err(TvError::ConnectionClosed)));
        }
        proof {
            assert(ids.no_duplicates());
            assert(ids.to_set() =~= waiting.dom()) by {
                assert forall|id: Seq<char>| waiting.contains_key(id) implies ids.contains(id) by {
                    let i = choose|i: int| 0 <= i < seen.len() && (#[trigger] seen[i]).0@ == id;
                    assert(ids[i] == id);
                }
                assert forall|id: Seq<char>| ids.contains(id) implies waiting.contains_key(id) by {
                    let i = choose|i: int| 0 <= i < ids.len() && ids[i] == id;
                    assert(seen[i].0@ == id);
                }
            }
            assert(closing_answers_in_order(waiting, answers@, ids));
        }
        answers
    }
}

/// When a connection closes, its waiting commands can be told off against the answers one by one: each
/// of them has one answer, with the news of the close, and there are no other answers.
pub proof fn law_every_waiting_command_is_told_of_the_close<R>(
    waiting: Map<Seq<char>, TvCmd<R>>,
    answers: Seq<(R, Reply)>,
)
    requires
        closing_answers(waiting, answers),
    ensures
        waiting.dom().finite(),
        answers.len() == waiting.dom().len(),
        exists|ids: Seq<Seq<char>>|
            {
                &&& #[trigger] ids.no_duplicates()
                &&& ids.len() == answers.len()
                &&& forall|id: Seq<char>| ids.contains(id) <==> #[trigger] waiting.contains_key(id)
                &&& forall|i: int|
                    0 <= i < answers.len() ==> {
                        &&& (#[trigger] answers[i]).0 == waiting[ids[i]].slot()
                        &&& answers[i].1@ == waiting[ids[i]].reply(Err(TvError::ConnectionClosed))
                    }
            },
{
    let ids = choose|ids: Seq<Seq<char>>| #[trigger]
        closing_answers_in_order(waiting, answers, ids);
    ids.unique_seq_to_set();
    assert forall|id: Seq<char>| ids.contains(id) <==> #[trigger] waiting.contains_key(id) by {
        assert(ids.to_set().contains(id) <==> waiting.dom().contains(id));
    }
}

} // verus!
