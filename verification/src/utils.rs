//! Small helpers of the UI layer: connections grouped for display and fetch errors
//! summarised in one line.
use vstd::prelude::*;
use crate::models::{ConnectionRecord, NameMap};
use crate::text::{lower, trim, text_lt, sorted_texts, texts, join, sort_texts, text_less, to_lower, join_exec, is_blank, same_text};

verus! {

/// The display group of a connection: its group name, or `(no group)` when blank.
pub open spec fn group_of(c: ConnectionRecord) -> Seq<char> {
    if trim(c.group_name@).len() == 0 { "(no group)"@ } else { c.group_name@ }
}

/// The distinct groups of `cs`, in order of first appearance.
pub open spec fn groups_seen(cs: Seq<ConnectionRecord>) -> Seq<Seq<char>>
    decreases cs.len(),
{
    if cs.len() == 0 {
        Seq::empty()
    } else {
        let prev = groups_seen(cs.drop_last());
        if prev.contains(group_of(cs.last())) { prev } else { prev.push(group_of(cs.last())) }
    }
}

/// The connections of group `g`, in input order.
pub open spec fn members_of(cs: Seq<ConnectionRecord>, g: Seq<char>) -> Seq<ConnectionRecord>
    decreases cs.len(),
{
    if cs.len() == 0 {
        Seq::empty()
    } else if group_of(cs.last()) == g {
        members_of(cs.drop_last(), g).push(cs.last())
    } else {
        members_of(cs.drop_last(), g)
    }
}

/// `c` placed before the first connection whose lower-cased name it precedes, after
/// those it ties with.
pub open spec fn insert_by_name(s: Seq<ConnectionRecord>, c: ConnectionRecord) -> Seq<ConnectionRecord>
    decreases s.len(),
{
    if s.len() == 0 {
        seq![c]
    } else if text_lt(lower(c.name@), lower(s[0].name@)) {
        seq![c] + s
    } else {
        seq![s[0]] + insert_by_name(s.drop_first(), c)
    }
}

/// The connections ordered by lower-cased name, ties kept in input order.
pub open spec fn by_name(s: Seq<ConnectionRecord>) -> Seq<ConnectionRecord>
    decreases s.len(),
{
    if s.len() == 0 {
        s
    } else {
        insert_by_name(by_name(s.drop_last()), s.last())
    }
}

/// The connections grouped for display: one entry per group in ascending group order,
/// each with its connections ordered by lower-cased name.
pub open spec fn grouped(cs: Seq<ConnectionRecord>) -> Seq<(Seq<char>, Seq<ConnectionRecord>)> {
    sorted_texts(groups_seen(cs)).map_values(|g: Seq<char>| (g, by_name(members_of(cs, g))))
}

fn group_exec(c: &ConnectionRecord) -> (r: String)
    ensures
        r@ == group_of(*c),
{
    if is_blank(c.group_name.as_str()) { "(no group)".to_string() } else { c.group_name.clone() }
}

fn contains_group(v: &Vec<String>, g: &str) -> (r: bool)
    ensures
        r == texts(v@).contains(g@),
{
    let mut i: usize = 0;
    while i < v.len()
        invariant
            i <= v.len(),
            forall|j: int| 0 <= j < i ==> v@[j]@ != g@,
        decreases v.len() - i,
    {
        if same_text(v[i].as_str(), g) {
            assert(texts(v@)[i as int] == g@);
            return true;
        }
        i += 1;
    }
    proof {
        if texts(v@).contains(g@) {
            let j = choose|j: int| 0 <= j < texts(v@).len() && texts(v@)[j] == g@;
            assert(v@[j]@ == g@);
        }
    }
    false
}

proof fn lemma_insert_by_name_at(s: Seq<ConnectionRecord>, c: ConnectionRecord, p: int)
    requires
        0 <= p <= s.len(),
        forall|j: int| 0 <= j < p ==> !text_lt(lower(c.name@), lower((#[trigger] s[j]).name@)),
        p < s.len() ==> text_lt(lower(c.name@), lower(s[p].name@)),
    ensures
        insert_by_name(s, c) == s.take(p).push(c) + s.skip(p),
    decreases s.len(),
{
    if s.len() == 0 {
        assert(s.take(p).push(c) + s.skip(p) =~= seq![c]);
    } else if p == 0 {
        assert(s.take(0).push(c) + s.skip(0) =~= seq![c] + s);
    } else {
        let t = s.drop_first();
        assert forall|j: int| 0 <= j < p - 1 implies !text_lt(lower(c.name@), lower((#[trigger] t[j]).name@)) by {
            assert(t[j] == s[j + 1]);
        }
        if p - 1 < t.len() {
            assert(t[p - 1] == s[p]);
        }
        lemma_insert_by_name_at(t, c, p - 1);
        assert(seq![s[0]] + (t.take(p - 1).push(c) + t.skip(p - 1)) =~= s.take(p).push(c) + s.skip(p));
    }
}

fn insert_by_name_exec(v: &mut Vec<ConnectionRecord>, c: ConnectionRecord)
    ensures
        final(v)@ == insert_by_name(old(v)@, c),
{
    let key = to_lower(c.name.as_str());
    let mut p: usize = 0;
    while p < v.len() && !text_less(key.as_str(), to_lower(v[p].name.as_str()).as_str())
        invariant
            p <= v.len(),
            key@ == lower(c.name@),
            forall|j: int| 0 <= j < p ==> !text_lt(lower(c.name@), lower((#[trigger] v@[j]).name@)),
        decreases v.len() - p,
    {
        p += 1;
    }
    proof { lemma_insert_by_name_at(v@, c, p as int); }
    let ghost before = v@;
    v.insert(p, c);
    assert(v@ =~= before.take(p as int).push(c) + before.skip(p as int));
}

/// Connections grouped by their group name (blank as `(no group)`), groups in ascending
/// order, each group's connections ordered by lower-cased name.
pub fn group_by_schema(connections: &[ConnectionRecord]) -> (r: Vec<(String, Vec<ConnectionRecord>)>)
    ensures
        r@.map_values(|e: (String, Vec<ConnectionRecord>)| (e.0@, e.1@)) == grouped(connections@),
{
    let mut seen: Vec<String> = Vec::new();
    let mut i: usize = 0;
    assert(connections@.take(0) =~= Seq::<ConnectionRecord>::empty());
    while i < connections.len()
        invariant
            i <= connections.len(),
            texts(seen@) == groups_seen(connections@.take(i as int)),
        decreases connections.len() - i,
    {
        assert(connections@.take(i + 1).drop_last() =~= connections@.take(i as int));
        let g = group_exec(&connections[i]);
        if !contains_group(&seen, g.as_str()) {
            let ghost before = seen@;
            seen.push(g);
            assert(texts(seen@) =~= texts(before).push(group_of(connections@[i as int])));
        }
        i += 1;
    }
    assert(connections@.take(connections.len() as int) =~= connections@);
    let groups = sort_texts(&seen);
    let ghost gs = sorted_texts(groups_seen(connections@));
    let mut out: Vec<(String, Vec<ConnectionRecord>)> = Vec::new();
    let mut k: usize = 0;
    while k < groups.len()
        invariant
            k <= groups.len(),
            texts(groups@) == gs,
            gs == sorted_texts(groups_seen(connections@)),
            out.len() == k,
            forall|j: int| 0 <= j < k ==> #[trigger] out@[j].0@ == gs[j] && out@[j].1@ == by_name(members_of(connections@, gs[j])),
        decreases groups.len() - k,
    {
        let g = &groups[k];
        let mut members: Vec<ConnectionRecord> = Vec::new();
        let mut x: usize = 0;
        assert(connections@.take(0) =~= Seq::<ConnectionRecord>::empty());
        while x < connections.len()
            invariant
                x <= connections.len(),
                by_name(members_of(connections@.take(x as int), g@)) == members@,
            decreases connections.len() - x,
        {
            assert(connections@.take(x + 1).drop_last() =~= connections@.take(x as int));
            assert(connections@.take(x + 1).last() == connections@[x as int]);
            let ghost prev = members_of(connections@.take(x as int), g@);
            let cg = group_exec(&connections[x]);
            if same_text(cg.as_str(), g.as_str()) {
                let c = connections[x].duplicate();
                assert(prev.push(c).drop_last() =~= prev);
                insert_by_name_exec(&mut members, c);
            }
            x += 1;
        }
        assert(connections@.take(connections.len() as int) =~= connections@);
        assert(g@ == gs[k as int]);
        let ghost before = out@;
        out.push((g.clone(), members));
        assert(out@[k as int].0@ == gs[k as int]);
        assert forall|j: int| 0 <= j < k + 1 implies #[trigger] out@[j].0@ == gs[j]
            && out@[j].1@ == by_name(members_of(connections@, gs[j])) by {
            if j < k {
                assert(out@[j] == before[j]);
            }
        }
        k += 1;
    }
    assert(out@.map_values(|e: (String, Vec<ConnectionRecord>)| (e.0@, e.1@)) =~= grouped(connections@));
    out
}

/// The fetch errors summarised: `name: error` for each server, sorted, at most
/// `max_items` of them (at least one), joined by ` | `; empty when there are none.
pub open spec fn error_summary(entries: Seq<(String, String)>, max_items: nat) -> Seq<char> {
    let details = sorted_texts(entries.map_values(|e: (String, String)| e.0@ + ": "@ + e.1@));
    let n = if max_items > 1 { max_items } else { 1 };
    join(if details.len() > n { details.take(n as int) } else { details }, " | "@)
}

/// The fetch errors of the servers summarised in one line.
pub fn summarize_fetch_errors(errors: &NameMap<String>, max_items: usize) -> (r: String)
    ensures
        r@ == error_summary(errors.items(), max_items as nat),
{
    let n = errors.len();
    let mut details: Vec<String> = Vec::new();
    let mut i: usize = 0;
    while i < n
        invariant
            i <= n,
            n == errors.items().len(),
            details.len() == i,
            forall|j: int| 0 <= j < i ==> #[trigger] details@[j]@ == errors.items()[j].0@ + ": "@ + errors.items()[j].1@,
        decreases n - i,
    {
        let mut d = errors.key(i).clone();
        d.append(": ");
        d.append(errors.value(i).as_str());
        details.push(d);
        i += 1;
    }
    assert(texts(details@) =~= errors.items().map_values(|e: (String, String)| e.0@ + ": "@ + e.1@));
    let sorted = sort_texts(&details);
    let cap: usize = if max_items > 1 { max_items } else { 1 };
    let mut kept: Vec<String> = Vec::new();
    let mut k: usize = 0;
    while k < sorted.len() && k < cap
        invariant
            k <= sorted.len(),
            k <= cap,
            kept.len() == k,
            forall|j: int| 0 <= j < k ==> #[trigger] kept@[j] == sorted@[j],
        decreases sorted.len() - k,
    {
        kept.push(sorted[k].clone());
        k += 1;
    }
    let ghost ds = sorted_texts(errors.items().map_values(|e: (String, String)| e.0@ + ": "@ + e.1@));
    assert(texts(sorted@) == ds);
    assert forall|j: int| 0 <= j < k implies #[trigger] texts(kept@)[j] == ds[j] by {
        assert(kept@[j] == sorted@[j]);
        assert(texts(sorted@)[j] == sorted@[j]@);
    }
    assert(texts(kept@) =~= (if ds.len() > cap { ds.take(cap as int) } else { ds }));
    join_exec(&kept, " | ")
}

} // verus!
