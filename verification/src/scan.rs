//! The directory scanner.
//!
//! The binary lists the immediate entries of the base directory and records,
//! for each, the few facts the policy needs: whether it is a directory,
//! whether the project manifest marker sits directly inside it, and whether
//! either skip marker is present. From those facts alone, `plan_scan`
//! produces the dispatch plan: the names of the qualifying directories in
//! ascending lexicographic order.

use vstd::prelude::*;
use vstd::multiset::Multiset;
use vstd::seq_lib::group_to_multiset_ensures;
use crate::order::lex_le;
use crate::order::lemma_lex_le_antisymmetric;
use crate::order::lemma_lex_le_total;
use crate::order::lemma_lex_le_trans;
use crate::order::name_le;
use crate::should_skip;

verus! {

/// One immediate entry of the base directory, with the marker facts the
/// eligibility policy reads.
pub struct Entry {
    /// The entry's file name, which doubles as the sort key and, for a
    /// dispatched candidate, the subprocess working directory.
    pub name: String,
    /// Whether the entry is itself a directory.
    pub is_dir: bool,
    /// Whether the project manifest marker file sits directly inside it.
    pub has_manifest: bool,
    /// Whether a `.skip` marker file sits directly inside it.
    pub has_internal_skip: bool,
    /// Whether a sibling marker file named `<name>.skip` stands next to it
    /// in the base directory.
    pub has_sibling_skip: bool,
}

/// A candidate qualifies for dispatch when it is a directory, carries the
/// project manifest marker, and neither skip marker excludes it.
pub open spec fn eligible(e: Entry) -> bool {
    e.is_dir && e.has_manifest && !e.has_internal_skip && !e.has_sibling_skip
}

/// The names of the eligible entries of a listing, in listing order.
pub open spec fn eligible_names(entries: Seq<Entry>) -> Seq<String> {
    entries.filter(|e: Entry| eligible(e)).map_values(|e: Entry| e.name)
}

/// The plan invariant: names ascend lexicographically.
pub open spec fn names_sorted(names: Seq<String>) -> bool {
    forall|i: int, j: int| 0 <= i < j < names.len() ==> lex_le(names[i]@, names[j]@)
}

proof fn lemma_eligible_names_empty(entries: Seq<Entry>)
    requires
        entries.len() == 0,
    ensures
        eligible_names(entries) == Seq::<String>::empty(),
{
    reveal_with_fuel(Seq::<_>::filter, 1);
    assert(eligible_names(entries) =~= Seq::<String>::empty());
}

proof fn lemma_eligible_names_drop_last(entries: Seq<Entry>)
    requires
        entries.len() > 0,
    ensures
        eligible(entries.last()) ==> eligible_names(entries) == eligible_names(
            entries.drop_last(),
        ).push(entries.last().name),
        !eligible(entries.last()) ==> eligible_names(entries) == eligible_names(
            entries.drop_last(),
        ),
{
    reveal_with_fuel(Seq::<_>::filter, 2);
    if eligible(entries.last()) {
        assert(eligible_names(entries) =~= eligible_names(entries.drop_last()).push(
            entries.last().name,
        ));
    } else {
        assert(eligible_names(entries) =~= eligible_names(entries.drop_last()));
    }
}

proof fn lemma_eligible_names_membership(entries: Seq<Entry>, x: String)
    requires
        eligible_names(entries).contains(x),
    ensures
        exists|k: int|
            0 <= k < entries.len() && eligible(#[trigger] entries[k]) && entries[k].name == x,
    decreases entries.len(),
{
    if entries.len() == 0 {
        lemma_eligible_names_empty(entries);
    } else {
        lemma_eligible_names_drop_last(entries);
        let last = entries.last();
        if eligible(last) && last.name == x {
            assert(eligible(entries[entries.len() - 1]));
        } else {
            assert(eligible_names(entries.drop_last()).contains(x)) by {
                let j = choose|j: int|
                    0 <= j < eligible_names(entries).len() && eligible_names(entries)[j] == x;
                if eligible(last) {
                    assert(eligible_names(entries)[j] == eligible_names(entries.drop_last()).push(
                        last.name,
                    )[j]);
                }
            }
            lemma_eligible_names_membership(entries.drop_last(), x);
            let k = choose|k: int|
                0 <= k < entries.drop_last().len() && eligible(
                    #[trigger] entries.drop_last()[k],
                ) && entries.drop_last()[k].name == x;
            assert(entries[k] == entries.drop_last()[k]);
        }
    }
}

proof fn lemma_eligible_names_covers(entries: Seq<Entry>, k: int)
    requires
        0 <= k < entries.len(),
        eligible(entries[k]),
    ensures
        eligible_names(entries).contains(entries[k].name),
    decreases entries.len(),
{
    lemma_eligible_names_drop_last(entries);
    if k == entries.len() - 1 {
        assert(eligible_names(entries).last() == entries[k].name);
        assert(eligible_names(entries).contains(entries[k].name));
    } else {
        assert(entries.drop_last()[k] == entries[k]);
        lemma_eligible_names_covers(entries.drop_last(), k);
        let j = choose|j: int|
            0 <= j < eligible_names(entries.drop_last()).len() && eligible_names(
                entries.drop_last(),
            )[j] == entries[k].name;
        if eligible(entries.last()) {
            assert(eligible_names(entries)[j] == eligible_names(entries.drop_last()).push(
                entries.last().name,
            )[j]);
        } else {
            assert(eligible_names(entries)[j] == entries[k].name);
        }
    }
}

/// The characters of each name of a plan, name by name.
pub open spec fn name_views(names: Seq<String>) -> Seq<Seq<char>> {
    names.map_values(|s: String| s@)
}

proof fn lemma_name_views_multiset(s: Seq<String>, t: Seq<String>)
    requires
        s.to_multiset() == t.to_multiset(),
    ensures
        name_views(s).to_multiset() == name_views(t).to_multiset(),
    decreases s.len(),
{
    broadcast use group_to_multiset_ensures;

    if s.len() == 0 {
        assert(t.len() == t.to_multiset().len());
        assert(name_views(s).to_multiset() =~= name_views(t).to_multiset());
    } else {
        let x = s[0];
        assert(s.contains(x));
        assert(t.to_multiset().count(x) > 0);
        assert(t.contains(x));
        let j = choose|j: int| 0 <= j < t.len() && t[j] == x;
        assert(s.remove(0).to_multiset() =~= t.remove(j).to_multiset());
        lemma_name_views_multiset(s.remove(0), t.remove(j));
        assert(name_views(s) =~= name_views(s.remove(0)).insert(0, x@));
        assert(name_views(t) =~= name_views(t.remove(j)).insert(j, x@));
        vstd::seq_lib::to_multiset_insert(name_views(s.remove(0)), 0, x@);
        vstd::seq_lib::to_multiset_insert(name_views(t.remove(j)), j, x@);
        assert(name_views(s).to_multiset() =~= name_views(t).to_multiset());
    }
}

/// Ascending order on whole character sequences.
pub open spec fn views_sorted(views: Seq<Seq<char>>) -> bool {
    forall|i: int, j: int| 0 <= i < j < views.len() ==> lex_le(views[i], views[j])
}

proof fn lemma_sorted_views_equal(x: Seq<Seq<char>>, y: Seq<Seq<char>>)
    requires
        views_sorted(x),
        views_sorted(y),
        x.to_multiset() == y.to_multiset(),
    ensures
        x == y,
    decreases x.len(),
{
    broadcast use group_to_multiset_ensures;

    if x.len() == 0 {
        assert(y.len() == y.to_multiset().len());
        assert(x =~= y);
    } else {
        assert(x.contains(x[0]));
        assert(y.to_multiset().count(x[0]) > 0);
        assert(y.contains(x[0]));
        let j = choose|j: int| 0 <= j < y.len() && y[j] == x[0];
        assert(lex_le(y[0], x[0])) by {
            if j == 0 {
                lemma_lex_le_total(y[0], x[0]);
            }
        }
        assert(y.contains(y[0]));
        assert(x.to_multiset().count(y[0]) > 0);
        assert(x.contains(y[0]));
        let k = choose|k: int| 0 <= k < x.len() && x[k] == y[0];
        assert(lex_le(x[0], y[0])) by {
            if k == 0 {
                lemma_lex_le_total(x[0], y[0]);
            }
        }
        lemma_lex_le_antisymmetric(x[0], y[0]);
        x.remove_ensures(0);
        y.remove_ensures(0);
        assert(x.remove(0).to_multiset() =~= y.remove(0).to_multiset());
        assert(views_sorted(x.remove(0)));
        assert(views_sorted(y.remove(0)));
        lemma_sorted_views_equal(x.remove(0), y.remove(0));
        assert forall|i: int| 0 <= i < x.len() implies x[i] == y[i] by {
            if i > 0 {
                assert(x.remove(0)[i - 1] == x[i]);
                assert(y.remove(0)[i - 1] == y[i]);
            }
        }
        assert(x =~= y);
    }
}

/// One listing admits exactly one dispatch order: two sorted plans that
/// hold the same names agree name for name. With `plan_scan`'s own
/// guarantees this pins the dispatch order down completely: it is the
/// ascending lexicographic sort of the eligible names, and reruns over an
/// unchanged listing dispatch in the same order.
pub proof fn lemma_one_plan_per_listing(x: Seq<String>, y: Seq<String>)
    requires
        names_sorted(x),
        names_sorted(y),
        x.to_multiset() == y.to_multiset(),
    ensures
        name_views(x) == name_views(y),
{
    lemma_name_views_multiset(x, y);
    assert(views_sorted(name_views(x)));
    assert(views_sorted(name_views(y)));
    lemma_sorted_views_equal(name_views(x), name_views(y));
}

/// Exclusion is absolute: a name stands in the dispatch plan only if some
/// eligible entry of the listing bears it. In particular a candidate that
/// lacks the project manifest marker, one with a `.skip` marker inside it,
/// and one with a sibling `<name>.skip` marker next to it are never
/// dispatched, whatever the other markers say.
pub proof fn lemma_only_eligible_dispatched(entries: Seq<Entry>, plan: Seq<String>, i: int)
    requires
        plan.to_multiset() == eligible_names(entries).to_multiset(),
        0 <= i < plan.len(),
    ensures
        exists|k: int|
            0 <= k < entries.len() && eligible(#[trigger] entries[k]) && entries[k].name == plan[i],
{
    broadcast use group_to_multiset_ensures;

    assert(plan.contains(plan[i]));
    assert(eligible_names(entries).to_multiset().count(plan[i]) > 0);
    lemma_eligible_names_membership(entries, plan[i]);
}

/// Inclusion is absolute too: the name of every eligible entry of the
/// listing stands in the dispatch plan.
pub proof fn lemma_eligible_is_dispatched(entries: Seq<Entry>, plan: Seq<String>, k: int)
    requires
        plan.to_multiset() == eligible_names(entries).to_multiset(),
        0 <= k < entries.len(),
        eligible(entries[k]),
    ensures
        plan.contains(entries[k].name),
{
    broadcast use group_to_multiset_ensures;

    lemma_eligible_names_covers(entries, k);
    assert(eligible_names(entries).to_multiset().count(entries[k].name) > 0);
}

/// Decides eligibility of one candidate.
pub fn is_eligible(e: &Entry) -> (r: bool)
    ensures
        r == eligible(*e),
{
    e.is_dir && e.has_manifest && !should_skip(e.has_internal_skip, e.has_sibling_skip)
}

/// Turns a raw directory listing into the dispatch plan: exactly the names
/// of the eligible entries, in ascending lexicographic order. Rerunning on
/// an unchanged listing yields the same plan.
pub fn plan_scan(entries: Vec<Entry>) -> (plan: Vec<String>)
    ensures
        names_sorted(plan@),
        plan@.to_multiset() == eligible_names(entries@).to_multiset(),
{
    broadcast use group_to_multiset_ensures;

    let mut rest = entries;
    let mut plan: Vec<String> = Vec::new();
    proof {
        assert(eligible_names(rest@).to_multiset().add(plan@.to_multiset()) =~= eligible_names(
            rest@,
        ).to_multiset());
    }
    loop
        invariant
            names_sorted(plan@),
            eligible_names(rest@).to_multiset().add(plan@.to_multiset()) == eligible_names(
                entries@,
            ).to_multiset(),
        decreases rest@.len(),
    {
        let ghost pre = rest@;
        let ghost planned = plan@;
        match rest.pop() {
            None => {
                proof {
                    broadcast use group_to_multiset_ensures;

                    lemma_eligible_names_empty(pre);
                    assert(eligible_names(pre).to_multiset() =~= Multiset::<String>::empty());
                    assert(plan@.to_multiset() =~= eligible_names(entries@).to_multiset());
                }
                return plan;
            },
            Some(e) => {
                proof {
                    assert(rest@ =~= pre.drop_last());
                    lemma_eligible_names_drop_last(pre);
                }
                if is_eligible(&e) {
                    proof {
                        broadcast use group_to_multiset_ensures;

                        assert(eligible_names(pre) == eligible_names(rest@).push(e.name));
                        assert(eligible_names(pre).to_multiset() =~= eligible_names(
                            rest@,
                        ).to_multiset().insert(e.name));
                    }
                    insert_sorted(&mut plan, e.name);
                    proof {
                        assert(eligible_names(rest@).to_multiset().add(plan@.to_multiset())
                            =~= eligible_names(pre).to_multiset().add(planned.to_multiset()));
                    }
                } else {
                    proof {
                        assert(eligible_names(pre) =~= eligible_names(rest@));
                    }
                }
            },
        }
    }
}

/// Inserts one name into an already sorted plan, keeping it sorted.
fn insert_sorted(plan: &mut Vec<String>, name: String)
    requires
        names_sorted(old(plan)@),
    ensures
        names_sorted(final(plan)@),
        final(plan)@.to_multiset() == old(plan)@.to_multiset().insert(name),
{
    broadcast use group_to_multiset_ensures;

    let mut j: usize = 0;
    while j < plan.len() && name_le(plan[j].as_str(), name.as_str())
        invariant
            j <= plan@.len(),
            names_sorted(plan@),
            forall|k: int| 0 <= k < j ==> lex_le(plan@[k]@, name@),
        decreases plan@.len() - j,
    {
        j = j + 1;
    }
    proof {
        if j < plan@.len() {
            lemma_lex_le_total(plan@[j as int]@, name@);
        }
        assert forall|k: int| j <= k < plan@.len() implies lex_le(name@, plan@[k]@) by {
            if k > j {
                lemma_lex_le_trans(name@, plan@[j as int]@, plan@[k]@);
            }
        }
        old(plan)@.insert_ensures(j as int, name);
    }
    let ghost before = plan@;
    plan.insert(j, name);
    proof {
        assert(names_sorted(plan@)) by {
            assert forall|i1: int, i2: int| 0 <= i1 < i2 < plan@.len() implies lex_le(
                plan@[i1]@,
                plan@[i2]@,
            ) by {
                before.insert_ensures(j as int, name);
            }
        }
        vstd::seq_lib::to_multiset_insert(before, j as int, name);
    }
}

} // verus!
