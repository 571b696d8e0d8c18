//! The participant registry: the set of display names in use, with an atomic
//! test-and-insert on join and a removal on leave.

use vstd::prelude::*;
use crate::text::{join_with, joined, views};

verus! {

/// The roster shown to a new participant: `-` when nobody was present,
/// otherwise the prior names joined by `", "`.
pub open spec fn roster_of(prior: Seq<Seq<char>>) -> Seq<char> {
    if prior.len() == 0 {
        seq!['-']
    } else {
        joined(prior, seq![',', ' '])
    }
}

/// The names after one join attempt: unchanged when the name is in use,
/// otherwise with the name added last.
pub open spec fn after_join(names: Seq<Seq<char>>, name: Seq<char>) -> Seq<Seq<char>> {
    if names.contains(name) {
        names
    } else {
        names.push(name)
    }
}

/// The names after `n` join attempts with the same name.
pub open spec fn after_joins(names: Seq<Seq<char>>, name: Seq<char>, n: nat) -> Seq<Seq<char>>
    decreases n,
{
    if n == 0 {
        names
    } else {
        after_join(after_joins(names, name, (n - 1) as nat), name)
    }
}

/// How many of `n` join attempts with the same name succeed.
pub open spec fn accepted_joins(names: Seq<Seq<char>>, name: Seq<char>, n: nat) -> nat
    decreases n,
{
    if n == 0 {
        0
    } else {
        let before = after_joins(names, name, (n - 1) as nat);
        accepted_joins(names, name, (n - 1) as nat) + if before.contains(name) { 0nat } else { 1nat }
    }
}

/// The names that remain once `name` has left.
pub open spec fn without(names: Seq<Seq<char>>, name: Seq<char>) -> Seq<Seq<char>> {
    names.filter(|n: Seq<char>| n != name)
}

/// The display names of the participants, in order of joining.
pub struct ParticipantRegistry {
    names: Vec<String>,
}

impl View for ParticipantRegistry {
    type V = Seq<Seq<char>>;

    closed spec fn view(&self) -> Seq<Seq<char>> {
        views(self.names@)
    }
}

impl ParticipantRegistry {
    /// Each name is held at most once.
    pub open spec fn wf(&self) -> bool {
        self@.no_duplicates()
    }

    /// An empty registry.
    pub fn new() -> (r: Self)
        ensures
            r.wf(),
            r@ == Seq::<Seq<char>>::empty(),
    {
        let r = ParticipantRegistry { names: Vec::new() };
        assert(r@ =~= Seq::<Seq<char>>::empty());
        r
    }

    /// The number of participants.
    pub fn len(&self) -> (r: usize)
        ensures
            r == self@.len(),
    {
        self.names.len()
    }

    /// Tells whether `name` is in use.
    pub fn contains(&self, name: &String) -> (r: bool)
        ensures
            r == self@.contains(name@),
    {
        let mut i: usize = 0;
        while i < self.names.len()
            invariant
                i <= self.names@.len(),
                self@ == views(self.names@),
                forall|k: int| 0 <= k < i ==> self@[k] != name@,
            decreases self.names@.len() - i,
        {
            if self.names[i] == *name {
                assert(self@[i as int] == name@);
                return true;
            }
            i = i + 1;
        }
        false
    }

    /// Removes `name`; nothing happens when it is absent.
    pub fn leave(&mut self, name: &String)
        requires
            old(self).wf(),
        ensures
            final(self).wf(),
            final(self)@ == without(old(self)@, name@),
            !final(self)@.contains(name@),
    {
        let ghost before = self@;
        let mut kept: Vec<String> = Vec::new();
        let mut i: usize = 0;
        while i < self.names.len()
            invariant
                i <= self.names@.len(),
                self@ == before,
                before == views(self.names@),
                views(kept@) == without(before.subrange(0, i as int), name@),
            decreases self.names@.len() - i,
        {
            let ghost pre = before.subrange(0, i as int);
            assert(before.subrange(0, i + 1).drop_last() =~= pre);
            reveal(Seq::filter);
            if self.names[i] != *name {
                kept.push(self.names[i].clone());
                assert(views(kept@) =~= without(pre, name@).push(before[i as int]));
            } else {
                assert(views(kept@) =~= without(pre, name@));
            }
            i = i + 1;
        }
        assert(before.subrange(0, before.len() as int) =~= before);
        self.names = kept;
        proof { lemma_without_no_duplicates(before, name@); }
    }
}

proof fn lemma_without_no_duplicates(names: Seq<Seq<char>>, name: Seq<char>)
    requires
        names.no_duplicates(),
    ensures
        without(names, name).no_duplicates(),
        !without(names, name).contains(name),
        forall|n: Seq<char>| #[trigger] without(names, name).contains(n) <==> (names.contains(n) && n != name),
    decreases names.len(),
{
    reveal(Seq::filter);
    if names.len() > 0 {
        let rest = names.drop_last();
        let last = names.last();
        assert(names =~= rest.push(last));
        assert(rest.no_duplicates());
        lemma_without_no_duplicates(rest, name);
        assert forall|n: Seq<char>| #[trigger] names.contains(n) implies (rest.contains(n) || n == last) by {
            let k = choose|k: int| 0 <= k < names.len() && names[k] == n;
            if k < rest.len() {
                assert(rest[k] == n);
            }
        }
        assert forall|n: Seq<char>| rest.contains(n) implies #[trigger] names.contains(n) by {
            let k = choose|k: int| 0 <= k < rest.len() && rest[k] == n;
            assert(names[k] == n);
        }
        assert(names[names.len() - 1] == last);
        assert(names.contains(last));
        assert(!rest.contains(last)) by {
            if rest.contains(last) {
                let k = choose|k: int| 0 <= k < rest.len() && rest[k] == last;
                assert(names[k] == names[names.len() - 1]);
            }
        }
        let w = without(rest, name);
        if last != name {
            assert(without(names, name) =~= w.push(last));
            assert(!w.contains(last));
            assert forall|n: Seq<char>| #[trigger] w.push(last).contains(n) <==> (w.contains(n) || n == last) by {
                if w.push(last).contains(n) {
                    let k = choose|k: int| 0 <= k < w.push(last).len() && w.push(last)[k] == n;
                    if k < w.len() {
                        assert(w[k] == n);
                    }
                }
                if w.contains(n) {
                    let k = choose|k: int| 0 <= k < w.len() && w[k] == n;
                    assert(w.push(last)[k] == n);
                }
                if n == last {
                    assert(w.push(last)[w.len() as int] == n);
                }
            }
            assert forall|i: int, j: int|
                0 <= i < w.push(last).len() && 0 <= j < w.push(last).len() && i != j
                implies w.push(last)[i] != w.push(last)[j] by {
                if i == w.len() as int {
                    assert(w.contains(w[j]));
                } else if j == w.len() as int {
                    assert(w.contains(w[i]));
                }
            }
        } else {
            assert(without(names, name) =~= w);
        }
    }
}

/// Joins the room as `new_user_name`. When nobody is present the name is
/// taken and the roster is `-`; when the name is in use nothing changes and
/// the join is refused; otherwise the name is taken and the roster lists the
/// names present just before, joined by `", "`.
pub fn try_join_with_user_name(
    new_user_name: &String,
    participant_user_names: &mut ParticipantRegistry,
) -> (r: Result<String, ()>)
    requires
        old(participant_user_names).wf(),
    ensures
        final(participant_user_names).wf(),
        r is Err <==> old(participant_user_names)@.contains(new_user_name@),
        final(participant_user_names)@ == after_join(old(participant_user_names)@, new_user_name@),
        r matches Ok(roster) ==> {
            &&& roster@ == roster_of(old(participant_user_names)@)
            &&& final(participant_user_names)@ == old(participant_user_names)@.push(new_user_name@)
        },
{
    let ghost before = participant_user_names@;
    if participant_user_names.names.len() == 0 {
        participant_user_names.names.push(new_user_name.clone());
        assert(participant_user_names@ =~= before.push(new_user_name@));
        assert(participant_user_names@.no_duplicates());
        let mut dash = String::new();
        crate::text::push_char(&mut dash, '-');
        assert(dash@ =~= seq!['-']);
        Ok(dash)
    } else if participant_user_names.contains(new_user_name) {
        Err(())
    } else {
        let participants_list = join_with(&participant_user_names.names, ", ");
        proof {
            reveal_strlit(", ");
            assert(", "@ =~= seq![',', ' ']);
        }
        participant_user_names.names.push(new_user_name.clone());
        assert(participant_user_names@ =~= before.push(new_user_name@));
        assert forall|i: int, j: int|
            0 <= i < participant_user_names@.len() && 0 <= j < participant_user_names@.len() && i != j
            implies participant_user_names@[i] != participant_user_names@[j] by {
            if i == before.len() as int {
                assert(before.contains(before[j]));
            } else if j == before.len() as int {
                assert(before.contains(before[i]));
            }
        }
        Ok(participants_list)
    }
}

/// Of any number of join attempts with one name, made one after another in
/// any order the lock grants, exactly one succeeds when the name was free and
/// none when it was taken; afterwards the name is held exactly once.
pub proof fn same_name_joins_succeed_once(names: Seq<Seq<char>>, name: Seq<char>, n: nat)
    requires
        names.no_duplicates(),
        n >= 1,
    ensures
        accepted_joins(names, name, n) == (if names.contains(name) { 0nat } else { 1nat }),
        after_joins(names, name, n) == after_join(names, name),
        after_joins(names, name, n).contains(name),
        after_joins(names, name, n).no_duplicates(),
    decreases n,
{
    lemma_join_keeps_unique(names, name);
    assert(after_joins(names, name, 0) == names);
    assert(accepted_joins(names, name, 0) == 0);
    if n > 1 {
        same_name_joins_succeed_once(names, name, (n - 1) as nat);
        let prev = after_joins(names, name, (n - 1) as nat);
        assert(prev.contains(name));
        assert(after_joins(names, name, n) == after_join(prev, name));
        assert(after_join(prev, name) == prev);
    }
}

/// After a join attempt the name is present and each name is held once.
proof fn lemma_join_keeps_unique(names: Seq<Seq<char>>, name: Seq<char>)
    requires
        names.no_duplicates(),
    ensures
        after_join(names, name).contains(name),
        after_join(names, name).no_duplicates(),
{
    if !names.contains(name) {
        let p = names.push(name);
        assert(p[names.len() as int] == name);
        assert forall|i: int, j: int| 0 <= i < p.len() && 0 <= j < p.len() && i != j implies p[i] != p[j] by {
            if i == names.len() as int {
                assert(names.contains(names[j]));
            } else if j == names.len() as int {
                assert(names.contains(names[i]));
            }
        }
    }
}

/// Once a name has left, it is free again: a join attempt with it succeeds.
pub proof fn name_free_after_leave(names: Seq<Seq<char>>, name: Seq<char>)
    requires
        names.no_duplicates(),
    ensures
        !without(names, name).contains(name),
        after_join(without(names, name), name) == without(names, name).push(name),
{
    lemma_without_no_duplicates(names, name);
}

} // verus!
