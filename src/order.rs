use vstd::prelude::*;
use vstd::set_lib::*;

verus! {

/// A service name with its declared dependencies, or `None` where the
/// service's descriptor did not parse.
pub type Declared = (String, Option<Vec<String>>);

/// The names held by a vector of strings.
pub open spec fn names_of(v: Seq<String>) -> Seq<Seq<char>> {
    v.map_values(|x: String| x@)
}

/// The descriptor of the service parsed.
pub open spec fn parsed(e: Declared) -> bool {
    e.1 is Some
}

/// The declared dependencies of a service (none where it did not parse).
pub open spec fn deps_of(e: Declared) -> Seq<Seq<char>> {
    match e.1 {
        Some(d) => names_of(d@),
        None => Seq::empty(),
    }
}

/// No name occurs twice: the input is a set of service names.
pub open spec fn names_distinct(s: Seq<Declared>) -> bool {
    forall|i: int, j: int| 0 <= i < j < s.len() ==> s[i].0@ != s[j].0@
}

/// `w` lists every parsed name after each name that it depends on.
pub open spec fn topological_witness(s: Seq<Declared>, w: Seq<Seq<char>>) -> bool {
    &&& forall|i: int| 0 <= i < s.len() && parsed(s[i]) ==> w.contains(#[trigger] s[i].0@)
    &&& forall|i: int, a: int, b: int|
        0 <= i < s.len() && parsed(s[i]) && 0 <= a < w.len() && 0 <= b < w.len() && #[trigger] w[a]
            == s[i].0@ && #[trigger] deps_of(s[i]).contains(#[trigger] w[b]) ==> b < a
}

/// The dependency relation among the parsed services has no cycle.
pub open spec fn acyclic(s: Seq<Declared>) -> bool {
    exists|w: Seq<Seq<char>>| topological_witness(s, w)
}

/// In `o`, every declared dependency that `o` holds comes before the service
/// that declares it.
pub open spec fn respects_depends(s: Seq<Declared>, o: Seq<Seq<char>>) -> bool {
    forall|i: int, p: int, q: int|
        0 <= i < s.len() && parsed(s[i]) && 0 <= p < o.len() && 0 <= q < o.len() && #[trigger] o[p]
            == s[i].0@ && #[trigger] deps_of(s[i]).contains(#[trigger] o[q]) ==> q < p
}

/// `o` is a start order for `s`: each parsed name exactly once, no other
/// name, and, where the dependencies have no cycle, dependencies first.
pub open spec fn is_start_order(s: Seq<Declared>, o: Seq<Seq<char>>) -> bool {
    &&& o.no_duplicates()
    &&& forall|x: Seq<char>|
        o.contains(x) <==> exists|i: int| 0 <= i < s.len() && parsed(s[i]) && #[trigger] s[i].0@ == x
    &&& acyclic(s) ==> respects_depends(s, o)
}

/// Entry `j` parsed and is not yet placed.
pub open spec fn pending(s: Seq<Declared>, placed: Seq<bool>, j: int) -> bool {
    parsed(s[j]) && !placed[j]
}

/// No dependency of entry `i` names a pending entry.
pub open spec fn ready(s: Seq<Declared>, placed: Seq<bool>, i: int) -> bool {
    forall|k: int, j: int|
        0 <= k < deps_of(s[i]).len() && 0 <= j < s.len() && pending(s, placed, j)
            ==> #[trigger] deps_of(s[i])[k] != #[trigger] s[j].0@
}

/// `idx` maps each output position to its entry, `pos` each placed entry
/// to its output position.
spec fn bookkeeping(
    s: Seq<Declared>,
    placed: Seq<bool>,
    out: Seq<String>,
    idx: Seq<int>,
    pos: Seq<int>,
) -> bool {
    &&& idx.len() == out.len()
    &&& pos.len() == s.len()
    &&& placed.len() == s.len()
    &&& forall|p: int|
        0 <= p < out.len() ==> {
            &&& 0 <= #[trigger] idx[p] < s.len()
            &&& parsed(s[idx[p]])
            &&& placed[idx[p]]
            &&& out[p]@ == s[idx[p]].0@
            &&& pos[idx[p]] == p
        }
    &&& forall|j: int|
        0 <= j < s.len() && #[trigger] placed[j] ==> {
            &&& parsed(s[j])
            &&& 0 <= pos[j] < out.len()
            &&& idx[pos[j]] == j
        }
}

/// Every placed entry comes after the placed entries it depends on, and
/// each parsed entry it depends on is placed.
spec fn placed_in_order(
    s: Seq<Declared>,
    placed: Seq<bool>,
    out: Seq<String>,
    idx: Seq<int>,
    pos: Seq<int>,
) -> bool {
    forall|p: int, k: int, j: int|
        0 <= p < out.len() && 0 <= k < deps_of(s[idx[p]]).len() && 0 <= j < s.len() && parsed(
            s[j],
        ) && #[trigger] deps_of(s[idx[p]])[k] == #[trigger] s[j].0@ ==> placed[j] && pos[j] < p
}

proof fn lemma_out_bounded(s: Seq<Declared>, placed: Seq<bool>, out: Seq<String>, idx: Seq<int>, pos: Seq<int>)
    requires
        bookkeeping(s, placed, out, idx, pos),
    ensures
        out.len() <= s.len(),
{
    assert(idx.no_duplicates()) by {
        assert forall|p: int, q: int| 0 <= p < idx.len() && 0 <= q < idx.len() && p != q implies idx[p] != idx[q] by {
            assert(pos[idx[p]] == p);
            assert(pos[idx[q]] == q);
        }
    }
    idx.unique_seq_to_set();
    lemma_int_range(0, s.len() as int);
    assert(idx.to_set().subset_of(set_int_range(0, s.len() as int)));
    lemma_len_subset(idx.to_set(), set_int_range(0, s.len() as int));
}

proof fn lemma_pending_not_at(s: Seq<Declared>, placed: Seq<bool>, w: Seq<Seq<char>>, a: int)
    requires
        topological_witness(s, w),
        placed.len() == s.len(),
        forall|i: int| 0 <= i < s.len() && pending(s, placed, i) ==> !ready(s, placed, i),
        0 <= a < w.len(),
    ensures
        forall|i: int| 0 <= i < s.len() && pending(s, placed, i) ==> s[i].0@ != w[a],
    decreases a,
{
    assert forall|i: int| 0 <= i < s.len() && pending(s, placed, i) implies s[i].0@ != w[a] by {
        if s[i].0@ == w[a] {
            let b = lemma_pending_dep_before(s, placed, w, a, i);
            lemma_pending_not_at(s, placed, w, b);
        }
    }
}

/// A pending entry named at `a` in the witness has a pending dependency
/// named earlier in the witness.
proof fn lemma_pending_dep_before(s: Seq<Declared>, placed: Seq<bool>, w: Seq<Seq<char>>, a: int, i: int) -> (b: int)
    requires
        topological_witness(s, w),
        placed.len() == s.len(),
        0 <= i < s.len(),
        pending(s, placed, i),
        !ready(s, placed, i),
        0 <= a < w.len(),
        s[i].0@ == w[a],
    ensures
        0 <= b < a,
        exists|j: int| 0 <= j < s.len() && pending(s, placed, j) && s[j].0@ == w[b],
{
    let (k, j) = choose|k: int, j: int|
        0 <= k < deps_of(s[i]).len() && 0 <= j < s.len() && pending(s, placed, j)
            && #[trigger] deps_of(s[i])[k] == #[trigger] s[j].0@;
    assert(w.contains(s[j].0@));
    let b = choose|b: int| 0 <= b < w.len() && w[b] == s[j].0@;
    assert(deps_of(s[i]).contains(w[b]));
    b
}

/// Where the dependencies have no cycle, some pending entry is always ready.
proof fn lemma_stuck_only_on_cycle(s: Seq<Declared>, placed: Seq<bool>)
    requires
        acyclic(s),
        placed.len() == s.len(),
        forall|i: int| 0 <= i < s.len() && pending(s, placed, i) ==> !ready(s, placed, i),
    ensures
        forall|i: int| 0 <= i < s.len() ==> !pending(s, placed, i),
{
    let w = choose|w: Seq<Seq<char>>| topological_witness(s, w);
    assert forall|i: int| 0 <= i < s.len() implies !pending(s, placed, i) by {
        if pending(s, placed, i) {
            assert(w.contains(s[i].0@));
            let a = choose|a: int| 0 <= a < w.len() && w[a] == s[i].0@;
            lemma_pending_not_at(s, placed, w, a);
        }
    }
}

/// Whether no dependency of entry `i` names a pending entry.
fn is_ready(services: &Vec<Declared>, placed: &Vec<bool>, i: usize) -> (r: bool)
    requires
        i < services.len(),
        placed.len() == services.len(),
    ensures
        r == ready(services@, placed@, i as int),
{
    let deps = match &services[i].1 {
        Some(d) => d,
        None => {
            return true;
        },
    };
    let ghost s = services@;
    let mut k: usize = 0;
    while k < deps.len()
        invariant
            s == services@,
            placed.len() == s.len(),
            i < s.len(),
            s[i as int].1 == Some(*deps),
            k <= deps.len(),
            forall|k2: int, j: int|
                0 <= k2 < k && 0 <= j < s.len() && pending(s, placed@, j)
                    ==> #[trigger] deps_of(s[i as int])[k2] != #[trigger] s[j].0@,
        decreases deps.len() - k,
    {
        let mut j: usize = 0;
        while j < services.len()
            invariant
                s == services@,
                placed.len() == s.len(),
                i < s.len(),
                s[i as int].1 == Some(*deps),
                k < deps.len(),
                j <= s.len(),
                forall|j2: int|
                    0 <= j2 < j && pending(s, placed@, j2) ==> deps_of(s[i as int])[k as int]
                        != #[trigger] s[j2].0@,
            decreases s.len() - j,
        {
            if services[j].1.is_some() && !placed[j] && deps[k] == services[j].0 {
                assert(deps_of(s[i as int])[k as int] == s[j as int].0@);
                return false;
            }
            j += 1;
        }
        k += 1;
    }
    true
}

/// The start order of a set of services: each service whose descriptor
/// parsed, once, after the services it depends on; a dependency on a name
/// that is not a parsed service counts as met. Where the dependencies form a
/// cycle, what is left is appended in input order.
pub fn order(services: &Vec<Declared>) -> (r: Vec<String>)
    requires
        names_distinct(services@),
    ensures
        is_start_order(services@, names_of(r@)),
{
    let ghost s = services@;
    let n = services.len();
    let mut placed: Vec<bool> = Vec::new();
    let mut i: usize = 0;
    while i < n
        invariant
            n == s.len(),
            i <= n,
            placed.len() == i,
            forall|j: int| 0 <= j < i ==> !placed[j],
        decreases n - i,
    {
        placed.push(false);
        i += 1;
    }
    let mut out: Vec<String> = Vec::new();
    let ghost mut idx: Seq<int> = Seq::empty();
    let ghost mut pos: Seq<int> = Seq::new(n as nat, |j: int| 0);
    loop
        invariant
            s == services@,
            n == s.len(),
            names_distinct(s),
            bookkeeping(s, placed@, out@, idx, pos),
            acyclic(s) ==> placed_in_order(s, placed@, out@, idx, pos),
        decreases s.len() - out@.len(),
    {
        proof {
            lemma_out_bounded(s, placed@, out@, idx, pos);
        }
        let ghost start_len = out.len();
        let ghost start_placed = placed@;
        let mut progress = false;
        let mut i: usize = 0;
        while i < n
            invariant
                s == services@,
                n == s.len(),
                i <= n,
                bookkeeping(s, placed@, out@, idx, pos),
                acyclic(s) ==> placed_in_order(s, placed@, out@, idx, pos),
                start_len <= n,
                !progress ==> placed@ == start_placed && out.len() == start_len,
                !progress ==> forall|i2: int|
                    0 <= i2 < i && pending(s, placed@, i2) ==> !ready(s, placed@, i2),
                progress ==> out.len() > start_len,
            decreases n - i,
        {
            if services[i].1.is_some() && !placed[i] && is_ready(services, &placed, i) {
                let ghost old_placed = placed@;
                let ghost p = out.len() as int;
                out.push(services[i].0.clone());
                placed.set(i, true);
                proof {
                    idx = idx.push(i as int);
                    pos = pos.update(i as int, p);
                    assert(bookkeeping(s, placed@, out@, idx, pos));
                    if acyclic(s) {
                        assert forall|p2: int, k: int, j: int|
                            0 <= p2 < out.len() && 0 <= k < deps_of(s[idx[p2]]).len() && 0 <= j
                                < s.len() && parsed(s[j]) && #[trigger] deps_of(s[idx[p2]])[k]
                                == #[trigger] s[j].0@ implies placed[j] && pos[j] < p2 by {
                            if p2 == p {
                                assert(ready(s, old_placed, i as int));
                                assert(!pending(s, old_placed, j));
                            } else {
                                assert(old_placed[j]);
                            }
                        }
                    }
                }
                progress = true;
            }
            i += 1;
        }
        assert(progress ==> out.len() > start_len);
        if !progress {
            proof {
                if acyclic(s) {
                    lemma_stuck_only_on_cycle(s, placed@);
                }
            }
            let mut i: usize = 0;
            while i < n
                invariant
                    s == services@,
                    n == s.len(),
                    i <= n,
                    bookkeeping(s, placed@, out@, idx, pos),
                    acyclic(s) ==> placed_in_order(s, placed@, out@, idx, pos),
                    acyclic(s) ==> forall|j: int| 0 <= j < s.len() ==> !pending(s, placed@, j),
                    forall|j: int| 0 <= j < i && parsed(s[j]) ==> placed[j],
                decreases n - i,
            {
                if services[i].1.is_some() && !placed[i] {
                    assert(pending(s, placed@, i as int));
                    assert(!acyclic(s));
                    let ghost p = out.len() as int;
                    out.push(services[i].0.clone());
                    placed.set(i, true);
                    proof {
                        idx = idx.push(i as int);
                        pos = pos.update(i as int, p);
                    }
                }
                i += 1;
            }
            proof {
                lemma_final(s, placed@, out@, idx, pos);
            }
            return out;
        }
        proof {
            lemma_out_bounded(s, placed@, out@, idx, pos);
        }
    }
}

/// The strings of `v` in reverse order.
pub fn reversed(v: &Vec<String>) -> (r: Vec<String>)
    ensures
        r@ == v@.reverse(),
{
    let mut r: Vec<String> = Vec::new();
    let mut i: usize = v.len();
    while i > 0
        invariant
            i <= v.len(),
            r@ == v@.subrange(i as int, v@.len() as int).reverse(),
        decreases i,
    {
        i = i - 1;
        r.push(v[i].clone());
        assert(r@ =~= v@.subrange(i as int, v@.len() as int).reverse());
    }
    assert(v@.subrange(0, v@.len() as int) =~= v@);
    r
}

/// The stop order of a set of services: the start order of the same input,
/// reversed.
pub fn stop_order(services: &Vec<Declared>) -> (r: Vec<String>)
    requires
        names_distinct(services@),
    ensures
        exists|start: Seq<String>|
            is_start_order(services@, names_of(start)) && r@ == #[trigger] start.reverse(),
        is_start_order(services@, names_of(r@.reverse())),
{
    let start = order(services);
    let r = reversed(&start);
    assert(r@.reverse() =~= start@);
    r
}

/// Stopping in stop order, where the dependencies have no cycle, stops each
/// service before any of the services it depends on.
pub proof fn lemma_stop_dependents_first(s: Seq<Declared>, stop: Seq<String>)
    requires
        is_start_order(s, names_of(stop.reverse())),
        acyclic(s),
    ensures
        forall|i: int, p: int, q: int|
            0 <= i < s.len() && parsed(s[i]) && 0 <= p < stop.len() && 0 <= q < stop.len()
                && #[trigger] stop[p]@ == s[i].0@ && #[trigger] deps_of(s[i]).contains(stop[q]@) ==> p < q,
{
    let o = names_of(stop.reverse());
    let n = stop.len() as int;
    assert forall|i: int, p: int, q: int|
        0 <= i < s.len() && parsed(s[i]) && 0 <= p < n && 0 <= q < n
            && #[trigger] stop[p]@ == s[i].0@ && #[trigger] deps_of(s[i]).contains(stop[q]@) implies p < q by {
        assert(o[n - 1 - p] == stop[p]@);
        assert(o[n - 1 - q] == stop[q]@);
    }
}

proof fn lemma_final(s: Seq<Declared>, placed: Seq<bool>, out: Seq<String>, idx: Seq<int>, pos: Seq<int>)
    requires
        names_distinct(s),
        bookkeeping(s, placed, out, idx, pos),
        acyclic(s) ==> placed_in_order(s, placed, out, idx, pos),
        forall|j: int| 0 <= j < s.len() && parsed(s[j]) ==> placed[j],
    ensures
        is_start_order(s, names_of(out)),
{
    let o = names_of(out);
    assert forall|p: int, q: int| 0 <= p < o.len() && 0 <= q < o.len() && p != q implies o[p] != o[q] by {
        assert(pos[idx[p]] == p);
        assert(pos[idx[q]] == q);
    }
    assert forall|x: Seq<char>|
        o.contains(x) <==> exists|i: int| 0 <= i < s.len() && parsed(s[i]) && #[trigger] s[i].0@ == x by {
        if o.contains(x) {
            let p = choose|p: int| 0 <= p < o.len() && o[p] == x;
            assert(s[idx[p]].0@ == x);
        }
        if exists|i: int| 0 <= i < s.len() && parsed(s[i]) && #[trigger] s[i].0@ == x {
            let i = choose|i: int| 0 <= i < s.len() && parsed(s[i]) && #[trigger] s[i].0@ == x;
            assert(placed[i]);
            assert(o[pos[i]] == x);
        }
    }
    if acyclic(s) {
        assert forall|i: int, p: int, q: int|
            0 <= i < s.len() && parsed(s[i]) && 0 <= p < o.len() && 0 <= q < o.len() && #[trigger] o[p]
                == s[i].0@ && #[trigger] deps_of(s[i]).contains(#[trigger] o[q]) implies q < p by {
            assert(s[idx[p]].0@ == s[i].0@);
            assert(idx[p] == i);
            let k = choose|k: int| 0 <= k < deps_of(s[i]).len() && deps_of(s[i])[k] == o[q];
            let j = idx[q];
            assert(deps_of(s[idx[p]])[k] == s[j].0@);
        }
    }
}

} // verus!
