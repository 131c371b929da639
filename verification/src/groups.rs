//! Refresh-rate groups and the pulse of the fastest group.
//!
//! Monitors are grouped by the refresh rate of their active mode. The group
//! with the highest rate sets the pace: once each of its monitors has been
//! part of a committed frame, the caller is told, once, to update.

use std::collections::HashMap;
use std::collections::HashSet;
use vstd::prelude::*;

verus! {

broadcast use vstd::std_specs::hash::group_hash_axioms;

/// The groups, the fastest rate, the connectors of the fastest group that
/// have not been committed in this cycle, and whether an update is due.
pub struct GroupsView {
    pub groups: Map<u32, Seq<u32>>,
    pub fastest: Option<u32>,
    pub pending: Set<u32>,
    pub flag: bool,
}

/// The connectors of `members` by refresh rate, each group in the order of
/// `members`. A member is a connector and the refresh rate of its monitor.
pub open spec fn grouped(members: Seq<(u32, u32)>) -> Map<u32, Seq<u32>>
    decreases members.len(),
{
    if members.len() == 0 {
        Map::empty()
    } else {
        let rest = grouped(members.drop_last());
        let (connector, refresh) = members.last();
        if rest.contains_key(refresh) {
            rest.insert(refresh, rest[refresh].push(connector))
        } else {
            rest.insert(refresh, seq![connector])
        }
    }
}

/// The highest refresh rate among `members`, if there are any.
pub open spec fn max_refresh(members: Seq<(u32, u32)>) -> Option<u32>
    decreases members.len(),
{
    if members.len() == 0 {
        None
    } else {
        match max_refresh(members.drop_last()) {
            Some(best) => if best >= members.last().1 {
                Some(best)
            } else {
                Some(members.last().1)
            },
            None => Some(members.last().1),
        }
    }
}

/// `fastest` is the greatest key of `groups`, or nothing if there is no key.
pub open spec fn is_max_key(groups: Map<u32, Seq<u32>>, fastest: Option<u32>) -> bool {
    match fastest {
        Some(best) => groups.contains_key(best) && forall|rate: u32|
            groups.contains_key(rate) ==> rate <= best,
        None => forall|rate: u32| !groups.contains_key(rate),
    }
}

/// The connectors of the fastest group.
pub open spec fn fastest_group(g: GroupsView) -> Set<u32> {
    match g.fastest {
        Some(best) => if g.groups.contains_key(best) {
            g.groups[best].to_set()
        } else {
            Set::empty()
        },
        None => Set::empty(),
    }
}

impl GroupsView {
    /// What holds of the groups at every moment: the fastest rate is the
    /// greatest rate in use, no group is empty, only connectors of the
    /// fastest group are waited for, and an update is due only when none is
    /// waited for.
    pub open spec fn wf(self) -> bool {
        &&& is_max_key(self.groups, self.fastest)
        &&& forall|rate: u32| self.groups.contains_key(rate) ==> self.groups[rate].len() > 0
        &&& self.pending.finite()
        &&& self.pending.subset_of(fastest_group(self))
        &&& self.flag ==> self.pending.is_empty() && self.fastest is Some
    }

    /// A new cycle begins: every connector of the fastest group is waited
    /// for. An update is due at once only if there is a fastest group and
    /// it has no connector.
    pub open spec fn reset(self) -> GroupsView {
        GroupsView {
            pending: fastest_group(self),
            flag: fastest_group(self).is_empty() && self.fastest is Some,
            ..self
        }
    }

    /// The connector was part of a committed frame: it is no longer waited
    /// for, and if it was the last one waited for, an update is due.
    pub open spec fn mark(self, connector: u32) -> GroupsView {
        if self.pending.contains(connector) {
            GroupsView {
                pending: self.pending.remove(connector),
                flag: self.flag || self.pending.remove(connector).is_empty(),
                ..self
            }
        } else {
            self
        }
    }

    /// All of `connectors` were part of a committed frame.
    pub open spec fn mark_all(self, connectors: Seq<u32>) -> GroupsView
        decreases connectors.len(),
    {
        if connectors.len() == 0 {
            self
        } else {
            self.mark_all(connectors.drop_last()).mark(connectors.last())
        }
    }

    /// The caller asks whether to update: if an update is due, the answer
    /// is yes and a new cycle begins.
    pub open spec fn poll(self) -> (GroupsView, bool) {
        if self.flag {
            (GroupsView { flag: false, ..self }.reset(), true)
        } else {
            (self, false)
        }
    }
}

/// The groups of `members`, with a new cycle begun.
pub open spec fn rebuilt(members: Seq<(u32, u32)>) -> GroupsView {
    GroupsView {
        groups: grouped(members),
        fastest: max_refresh(members),
        pending: Set::empty(),
        flag: false,
    }.reset()
}

/// What the grouping holds: a rate is a key exactly if some member has it,
/// and its group holds exactly the connectors of the members with that rate.
pub proof fn lemma_grouped(members: Seq<(u32, u32)>)
    ensures
        grouped(members).dom().finite(),
        forall|rate: u32| #[trigger]
            grouped(members).contains_key(rate) <==> exists|i: int|
                0 <= i < members.len() && (#[trigger] members[i]).1 == rate,
        forall|rate: u32| #[trigger]
            grouped(members).contains_key(rate) ==> grouped(members)[rate].len() > 0,
        forall|rate: u32, connector: u32|
            grouped(members).contains_key(rate) ==> (#[trigger] grouped(members)[rate].contains(
                connector,
            ) <==> members.contains((connector, rate))),
    decreases members.len(),
{
    if members.len() > 0 {
        let head = members.drop_last();
        let (c, r) = members.last();
        lemma_grouped(head);
        let rest = grouped(head);
        let all = grouped(members);
        assert forall|rate: u32| #[trigger] all.contains_key(rate) <==> exists|i: int|
            0 <= i < members.len() && (#[trigger] members[i]).1 == rate by {
            if exists|i: int| 0 <= i < members.len() && (#[trigger] members[i]).1 == rate {
                let i = choose|i: int| 0 <= i < members.len() && (#[trigger] members[i]).1 == rate;
                if i < head.len() {
                    assert(head[i].1 == rate);
                }
            }
        }
        assert forall|rate: u32, connector: u32| all.contains_key(rate) implies (
        #[trigger] all[rate].contains(connector) <==> members.contains((connector, rate))) by {
            if rate == r {
                if rest.contains_key(r) {
                    let old_group = rest[r];
                    let new_group = old_group.push(c);
                    if new_group.contains(connector) {
                        let k = choose|k: int|
                            0 <= k < new_group.len() && new_group[k] == connector;
                        if k < old_group.len() {
                            assert(old_group.contains(connector));
                        }
                    }
                    if members.contains((connector, rate)) {
                        let j = choose|j: int|
                            0 <= j < members.len() && members[j] == (connector, rate);
                        if j < head.len() {
                            assert(head[j] == (connector, rate));
                            assert(rest[rate].contains(connector));
                            let k = choose|k: int|
                                0 <= k < old_group.len() && old_group[k] == connector;
                            assert(new_group[k] == connector);
                        } else {
                            assert(new_group[old_group.len() as int] == connector);
                        }
                    }
                } else {
                    if members.contains((connector, rate)) {
                        let j = choose|j: int|
                            0 <= j < members.len() && members[j] == (connector, rate);
                        if j < head.len() {
                            assert(head[j].1 == rate);
                        }
                        assert(seq![c][0] == connector);
                    }
                }
            } else {
                if members.contains((connector, rate)) {
                    let j = choose|j: int|
                        0 <= j < members.len() && members[j] == (connector, rate);
                    assert(head[j] == (connector, rate));
                }
            }
        }
    }
}

/// The highest refresh rate among the members is the greatest key of their
/// groups; without members there is neither.
pub proof fn lemma_fastest_is_max_key(members: Seq<(u32, u32)>)
    ensures
        is_max_key(grouped(members), max_refresh(members)),
        max_refresh(members) is None <==> members.len() == 0,
    decreases members.len(),
{
    if members.len() > 0 {
        lemma_fastest_is_max_key(members.drop_last());
    }
}

/// Rebuilding the groups gives a state in which all that has to hold does,
/// and no update is due.
pub proof fn lemma_rebuilt_wf(members: Seq<(u32, u32)>)
    ensures
        rebuilt(members).wf(),
        !rebuilt(members).flag,
        rebuilt(members).pending == fastest_group(rebuilt(members)),
{
    lemma_grouped(members);
    lemma_fastest_is_max_key(members);
    let g = rebuilt(members);
    match g.fastest {
        Some(best) => {
            assert(g.groups[best].to_set().contains(g.groups[best][0]));
            vstd::seq_lib::seq_to_set_is_finite(g.groups[best]);
        },
        None => {},
    }
}

/// The elements of a sequence with one more at its end.
proof fn lemma_push_to_set(items: Seq<u32>, last: u32)
    ensures
        items.push(last).to_set() == items.to_set().insert(last),
{
    let all = items.push(last);
    assert forall|c: u32| all.to_set().contains(c) <==> items.to_set().insert(last).contains(
        c,
    ) by {
        if items.contains(c) {
            let i = choose|i: int| 0 <= i < items.len() && items[i] == c;
            assert(all[i] == c);
        }
        if c == last {
            assert(all[all.len() - 1] == c);
        }
    }
}

/// Marking a connector keeps all that has to hold.
pub proof fn lemma_mark_wf(g: GroupsView, connector: u32)
    requires
        g.wf(),
    ensures
        g.mark(connector).wf(),
{
}

/// Beginning a new cycle keeps all that has to hold, and no update is due
/// at the beginning of a cycle.
pub proof fn lemma_reset_wf(g: GroupsView)
    requires
        g.wf(),
    ensures
        g.reset().wf(),
        !g.reset().flag,
{
    match g.fastest {
        Some(best) => {
            assert(g.groups[best].to_set().contains(g.groups[best][0]));
            vstd::seq_lib::seq_to_set_is_finite(g.groups[best]);
        },
        None => {},
    }
}

/// What marking a list of connectors amounts to: each of them is no longer
/// waited for, and an update has become due exactly if some connector was
/// waited for and all that were are in the list.
pub proof fn lemma_mark_all(g: GroupsView, connectors: Seq<u32>)
    requires
        g.wf(),
    ensures
        g.mark_all(connectors).wf(),
        g.mark_all(connectors).groups == g.groups,
        g.mark_all(connectors).fastest == g.fastest,
        g.mark_all(connectors).pending == g.pending.difference(connectors.to_set()),
        g.mark_all(connectors).flag == (g.flag || (!g.pending.is_empty() && g.pending.subset_of(
            connectors.to_set(),
        ))),
    decreases connectors.len(),
{
    lemma_difference_empty(g.pending, connectors.to_set());
    if connectors.len() == 0 {
    } else {
        let head = connectors.drop_last();
        let last = connectors.last();
        lemma_mark_all(g, head);
        let before = g.mark_all(head);
        lemma_mark_wf(before, last);
        assert(connectors =~= head.push(last));
        lemma_push_to_set(head, last);
        lemma_difference_empty(g.pending, head.to_set());
        if before.pending.contains(last) {
        } else {
            assert(g.pending.subset_of(connectors.to_set()) ==> g.pending.subset_of(
                head.to_set(),
            )) by {
                if g.pending.subset_of(connectors.to_set()) {
                    assert forall|c: u32| g.pending.contains(c) implies head.to_set().contains(
                        c,
                    ) by {
                        assert(before.pending.contains(c) == (g.pending.contains(c)
                            && !head.to_set().contains(c)));
                    }
                }
            }
        }
    }
}

/// Nothing of `some` is left outside `others` exactly if `some` lies within
/// `others`; and a set that is not empty has a member.
proof fn lemma_difference_empty(some: Set<u32>, others: Set<u32>)
    ensures
        some.difference(others).is_empty() <==> some.subset_of(others),
        !some.is_empty() ==> exists|c: u32| some.contains(c),
        some.is_empty() ==> some.subset_of(others),
{
    if some.difference(others).is_empty() {
        assert forall|c: u32| some.contains(c) implies others.contains(c) by {
            if !others.contains(c) {
                assert(some.difference(others).contains(c));
            }
        }
    }
}

/// An update is announced at most once per cycle. When it is announced, a
/// new cycle begins with every connector of the fastest group waited for;
/// asking again at once gives no; and after any list of commits the next
/// announcement comes exactly if every connector of the fastest group was in
/// one of them.
pub proof fn lemma_one_update_per_cycle(g: GroupsView, commits: Seq<u32>)
    requires
        g.wf(),
        g.flag,
    ensures
        g.poll().1,
        g.poll().0.wf(),
        g.poll().0.pending == fastest_group(g),
        !g.poll().0.poll().1,
        g.poll().0.mark_all(commits).poll().1 == fastest_group(g).subset_of(commits.to_set()),
{
    let cleared = GroupsView { flag: false, ..g };
    lemma_reset_wf(cleared);
    let next = g.poll().0;
    lemma_mark_all(next, commits);
    let best = g.fastest.unwrap();
}

/// While no update is due, asking changes nothing.
pub proof fn lemma_quiet_poll(g: GroupsView)
    requires
        !g.flag,
    ensures
        g.poll() == (g, false),
{
}

/// The refresh-rate groups of the monitors and the state of the current
/// cycle of the fastest group.
pub struct RefreshGroups {
    groups: HashMap<u32, Vec<u32>>,
    fastest: Option<u32>,
    pending: HashSet<u32>,
    should_update_flag: bool,
}

impl View for RefreshGroups {
    type V = GroupsView;

    closed spec fn view(&self) -> GroupsView {
        GroupsView {
            groups: self.groups@.map_values(|members: Vec<u32>| members@),
            fastest: self.fastest,
            pending: self.pending@,
            flag: self.should_update_flag,
        }
    }
}

impl RefreshGroups {
    /// No groups, nothing waited for, no update due.
    pub fn new() -> (made: RefreshGroups)
        ensures
            made@ == rebuilt(Seq::empty()),
            made@.wf(),
    {
        let made = RefreshGroups {
            groups: HashMap::new(),
            fastest: None,
            pending: HashSet::new(),
            should_update_flag: false,
        };
        proof {
            assert(made@.groups =~= grouped(Seq::empty()));
            lemma_rebuilt_wf(Seq::empty());
        }
        made
    }

    /// Whether the exec map holds the groups of a specification map.
    spec fn holds(&self, groups: Map<u32, Seq<u32>>) -> bool {
        &&& forall|rate: u32| self.groups@.contains_key(rate) <==> groups.contains_key(rate)
        &&& forall|rate: u32| self.groups@.contains_key(rate) ==> self.groups@[rate]@ == groups[rate]
    }

    /// Groups the members anew and begins a new cycle. A member is a
    /// connector and the refresh rate of its monitor's active mode.
    pub fn rebuild(&mut self, members: &Vec<(u32, u32)>)
        ensures
            final(self)@ == rebuilt(members@),
            final(self)@.wf(),
    {
        self.groups.clear();
        let mut fastest: Option<u32> = None;
        let mut i: usize = 0;
        while i < members.len()
            invariant
                i <= members@.len(),
                self.holds(grouped(members@.take(i as int))),
                fastest == max_refresh(members@.take(i as int)),
            decreases members@.len() - i,
        {
            let (connector, refresh) = members[i];
            proof {
                let head = members@.take(i + 1);
                assert(head.drop_last() =~= members@.take(i as int));
            }
            let mut group = match self.groups.remove(&refresh) {
                Some(group) => group,
                None => Vec::new(),
            };
            group.push(connector);
            self.groups.insert(refresh, group);
            fastest =
            match fastest {
                Some(best) => if best >= refresh {
                    Some(best)
                } else {
                    Some(refresh)
                },
                None => Some(refresh),
            };
            i += 1;
        }
        self.fastest = fastest;
        self.should_update_flag = false;
        proof {
            assert(members@.take(i as int) =~= members@);
            assert(self@.groups =~= grouped(members@));
        }
        self.reset_fastest_group_pending();
        proof {
            lemma_rebuilt_wf(members@);
            let start = GroupsView {
                groups: grouped(members@),
                fastest: max_refresh(members@),
                pending: Set::empty(),
                flag: false,
            };
        }
    }

    /// Begins a new cycle: every connector of the fastest group is waited
    /// for again.
    pub fn reset_fastest_group_pending(&mut self)
        ensures
            final(self)@ == old(self)@.reset(),
            old(self)@.wf() ==> final(self)@.wf(),
    {
        proof {
            if self@.wf() {
                lemma_reset_wf(self@);
            }
        }
        self.pending.clear();
        if let Some(refresh) = self.fastest {
            if let Some(connectors) = self.groups.get(&refresh) {
                let mut i: usize = 0;
                while i < connectors.len()
                    invariant
                        i <= connectors@.len(),
                        self.pending@ == connectors@.take(i as int).to_set(),
                        self.fastest == old(self).fastest,
                        self.groups == old(self).groups,
                        self.should_update_flag == old(self).should_update_flag,
                    decreases connectors@.len() - i,
                {
                    proof {
                        let head = connectors@.take(i + 1);
                        assert(head =~= connectors@.take(i as int).push(connectors@[i as int]));
                        lemma_push_to_set(connectors@.take(i as int), connectors@[i as int]);
                    }
                    self.pending.insert(connectors[i]);
                    i += 1;
                }
                proof {
                    assert(connectors@.take(i as int) =~= connectors@);
                }
            }
        }
        self.should_update_flag = self.pending.is_empty() && self.fastest.is_some();
    }

    /// Notes that the connector was part of a committed frame.
    pub fn mark_fast_group_commit(&mut self, connector_id: u32)
        ensures
            final(self)@ == old(self)@.mark(connector_id),
            old(self)@.wf() ==> final(self)@.wf(),
    {
        proof {
            if self@.wf() {
                lemma_mark_wf(self@, connector_id);
            }
        }
        if self.pending.remove(&connector_id) && self.pending.is_empty() {
            self.should_update_flag = true;
        }
        proof {
            assert(final(self)@.pending =~= old(self)@.mark(connector_id).pending);
        }
    }

    /// Says, once per cycle, that every monitor of the fastest group has
    /// been committed, and begins the next cycle.
    pub fn should_update(&mut self) -> (due: bool)
        ensures
            (final(self)@, due) == old(self)@.poll(),
            old(self)@.wf() ==> final(self)@.wf(),
    {
        proof {
            if self@.wf() && self@.flag {
                lemma_reset_wf(GroupsView { flag: false, ..self@ });
            }
        }
        if self.should_update_flag {
            self.should_update_flag = false;
            self.reset_fastest_group_pending();
            true
        } else {
            false
        }
    }

    /// The connectors of each refresh rate in use.
    pub fn refresh_rate_groups(&self) -> (groups: &HashMap<u32, Vec<u32>>)
        ensures
            groups@.map_values(|members: Vec<u32>| members@) == self@.groups,
    {
        &self.groups
    }

    /// The highest refresh rate in use.
    pub fn fastest_group_refresh(&self) -> (fastest: Option<u32>)
        ensures
            fastest == self@.fastest,
    {
        self.fastest
    }

    /// Whether the connector is still waited for in this cycle.
    pub fn is_pending(&self, connector_id: u32) -> (waited: bool)
        ensures
            waited == self@.pending.contains(connector_id),
    {
        self.pending.contains(&connector_id)
    }

    /// Whether an update is due and has not been announced yet.
    pub fn update_due(&self) -> (due: bool)
        ensures
            due == self@.flag,
    {
        self.should_update_flag
    }
}

} // verus!
