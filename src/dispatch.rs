use vstd::prelude::*;
use crate::handler::Handler;

verus! {

/// The resources assigned to handler `h`, in input order.
pub open spec fn args_for(pairs: Seq<(Seq<char>, Seq<char>)>, h: Seq<char>) -> Seq<Seq<char>>
    decreases pairs.len(),
{
    if pairs.len() == 0 {
        Seq::empty()
    } else {
        let p = pairs.last();
        args_for(pairs.drop_last(), h) + if p.0 == h {
            seq![p.1]
        } else {
            Seq::empty()
        }
    }
}

pub open spec fn strings_view(v: Seq<String>) -> Seq<Seq<char>> {
    v.map_values(|s: String| s@)
}

pub open spec fn pairs_view(v: Seq<(Handler, String)>) -> Seq<(Seq<char>, Seq<char>)> {
    v.map_values(|p: (Handler, String)| (p.0@, p.1@))
}

/// What grouping `pairs` must give: one group per distinct handler, holding
/// exactly the resources assigned to that handler, in input order.
pub open spec fn grouped(pairs: Seq<(Seq<char>, Seq<char>)>, groups: Seq<(Handler, Vec<String>)>) -> bool {
    &&& forall|i: int, j: int|
        0 <= i < groups.len() && 0 <= j < groups.len() && i != j ==> #[trigger] groups[i].0@ != #[trigger] groups[j].0@
    &&& forall|i: int|
        0 <= i < groups.len() ==> strings_view(#[trigger] groups[i].1@) == args_for(pairs, groups[i].0@)
            && groups[i].1@.len() > 0
    &&& forall|h: Seq<char>|
        (forall|i: int| 0 <= i < groups.len() ==> groups[i].0@ != h) ==> #[trigger] args_for(pairs, h)
            == Seq::<Seq<char>>::empty()
}

fn find_group(groups: &Vec<(Handler, Vec<String>)>, h: &Handler) -> (r: Option<usize>)
    ensures
        r matches Some(i) ==> i < groups@.len() && groups@[i as int].0@ == h@,
        r is None ==> forall|j: int| 0 <= j < groups@.len() ==> groups@[j].0@ != h@,
{
    let mut i: usize = 0;
    while i < groups.len()
        invariant
            i <= groups@.len(),
            forall|j: int| 0 <= j < i ==> groups@[j].0@ != h@,
        decreases groups@.len() - i,
    {
        if groups[i].0.same_as(h) {
            return Some(i);
        }
        i = i + 1;
    }
    None
}

/// Groups resources by the handler they were resolved to, so that each handler
/// is launched once with all of its resources.
pub fn group_by_handler(pairs: &Vec<(Handler, String)>) -> (r: Vec<(Handler, Vec<String>)>)
    ensures
        grouped(pairs_view(pairs@), r@),
{
    let ghost pv = pairs_view(pairs@);
    let mut groups: Vec<(Handler, Vec<String>)> = Vec::new();
    let mut k: usize = 0;
    assert(pv.subrange(0, 0) =~= Seq::<(Seq<char>, Seq<char>)>::empty());
    while k < pairs.len()
        invariant
            k <= pairs@.len(),
            pv == pairs_view(pairs@),
            grouped(pv.subrange(0, k as int), groups@),
        decreases pairs@.len() - k,
    {
        let ghost pre = pv.subrange(0, k as int);
        let ghost next = pv.subrange(0, k + 1);
        let ghost old_groups = groups@;
        assert(next.drop_last() =~= pre);
        assert(next.last() == pv[k as int]);
        let h = &pairs[k].0;
        let s = pairs[k].1.clone();
        let found = find_group(&groups, h);
        assert(pv[k as int] == (h@, s@));
        if let Some(i) = found {
            let (gh, mut ga) = groups.remove(i);
            ga.push(s);
            groups.insert(i, (gh, ga));
            assert(groups@ =~= old_groups.update(i as int, groups@[i as int]));
            assert(grouped(next, groups@)) by {
                assert(strings_view(groups@[i as int].1@) =~= strings_view(old_groups[i as int].1@).push(pv[k as int].1));
                assert forall|a: int| 0 <= a < groups@.len()
                    implies strings_view(#[trigger] groups@[a].1@) == args_for(next, groups@[a].0@)
                        && groups@[a].1@.len() > 0 by {
                    if a != i {
                        assert(groups@[a] == old_groups[a]);
                        assert(args_for(next, groups@[a].0@) =~= args_for(pre, groups@[a].0@));
                    } else {
                        assert(args_for(next, groups@[a].0@) =~= args_for(pre, groups@[a].0@).push(pv[k as int].1));
                    }
                }
                assert forall|hh: Seq<char>|
                    (forall|a: int| 0 <= a < groups@.len() ==> groups@[a].0@ != hh)
                    implies #[trigger] args_for(next, hh) == Seq::<Seq<char>>::empty() by {
                    assert(groups@[i as int].0@ != hh);
                    assert forall|a: int| 0 <= a < old_groups.len() implies old_groups[a].0@ != hh by {
                        assert(groups@[a].0@ != hh);
                    }
                    assert(args_for(next, hh) =~= args_for(pre, hh));
                }
            }
        } else {
            let mut ga: Vec<String> = Vec::new();
            ga.push(s);
            groups.push((h.duplicate(), ga));
            let ghost n = old_groups.len() as int;
            assert(grouped(next, groups@)) by {
                assert(args_for(pre, h@) == Seq::<Seq<char>>::empty());
                assert forall|a: int| 0 <= a < groups@.len()
                    implies strings_view(#[trigger] groups@[a].1@) == args_for(next, groups@[a].0@)
                        && groups@[a].1@.len() > 0 by {
                    if a < n {
                        assert(groups@[a] == old_groups[a]);
                        assert(args_for(next, groups@[a].0@) =~= args_for(pre, groups@[a].0@));
                    } else {
                        assert(strings_view(groups@[a].1@) =~= seq![pv[k as int].1]);
                        assert(args_for(next, groups@[a].0@) =~= args_for(pre, h@).push(pv[k as int].1));
                    }
                }
                assert forall|a: int, b: int|
                    0 <= a < groups@.len() && 0 <= b < groups@.len() && a != b
                    implies #[trigger] groups@[a].0@ != #[trigger] groups@[b].0@ by {
                    if a < n && b < n {
                        assert(groups@[a] == old_groups[a]);
                        assert(groups@[b] == old_groups[b]);
                    }
                }
                assert forall|hh: Seq<char>|
                    (forall|a: int| 0 <= a < groups@.len() ==> groups@[a].0@ != hh)
                    implies #[trigger] args_for(next, hh) == Seq::<Seq<char>>::empty() by {
                    assert(groups@[n].0@ != hh);
                    assert forall|a: int| 0 <= a < old_groups.len() implies old_groups[a].0@ != hh by {
                        assert(groups@[a].0@ != hh);
                    }
                    assert(args_for(next, hh) =~= args_for(pre, hh));
                }
            }
        }
        k = k + 1;
    }
    assert(pv.subrange(0, pairs@.len() as int) =~= pv);
    groups
}

} // verus!
