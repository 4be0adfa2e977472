//! Finding every allocation that a body refers to, directly or through the
//! pointers stored in other allocations.
use vstd::prelude::*;
use crate::allocation::{
    allocation_text, write_allocation, AllocId, Allocation, DataLayout,
};
use crate::text::{dec, push_dec, push_str};

verus! {

/// A constant's value: a scalar (a pointer, or raw bits), or bytes held in an
/// allocation, by reference or as a slice.
#[derive(Clone, Debug)]
pub enum ConstValue {
    ScalarPtr(AllocId),
    ScalarRaw(u64),
    ByRef(Allocation),
    Slice(Allocation),
}

/// What an allocation id stands for.
#[derive(Clone, Debug)]
pub enum GlobalAlloc {
    /// A function, by its description.
    Function(String),
    /// A static item: its path, whether it is foreign, and the value its
    /// initializer evaluates to (`None` where the evaluation failed).
    Static { path: String, foreign: bool, init: Option<ConstValue> },
    /// Plain memory.
    Memory(Allocation),
}

/// The directory of allocations: entry `n` describes `AllocId(n)`; an id with
/// no entry, or an empty one, was deallocated.
#[derive(Clone, Debug)]
pub struct AllocMap {
    pub entries: Vec<Option<GlobalAlloc>>,
}

impl AllocMap {
    /// The initializer of a local static, where evaluated, is held by reference.
    pub open spec fn wf(&self) -> bool {
        forall|k: int|
            0 <= k < self.entries@.len() ==> match #[trigger] self.entries@[k] {
                Some(GlobalAlloc::Static { foreign: false, init: Some(v), .. }) => v is ByRef,
                _ => true,
            }
    }
}

pub open spec fn lookup(d: AllocMap, id: AllocId) -> Option<GlobalAlloc> {
    if id.0 < d.entries@.len() {
        d.entries@[id.0 as int]
    } else {
        None
    }
}

/// The targets of the pointers stored in `a`, in order of offset.
pub open spec fn alloc_targets(a: Allocation) -> Seq<AllocId> {
    a.relocations@.map_values(|r: crate::allocation::Relocation| r.target)
}

/// The allocations a constant's value refers to.
pub open spec fn const_ids(c: ConstValue) -> Seq<AllocId> {
    match c {
        ConstValue::ScalarPtr(id) => seq![id],
        ConstValue::ScalarRaw(_) => seq![],
        ConstValue::ByRef(a) => alloc_targets(a),
        ConstValue::Slice(a) => alloc_targets(a),
    }
}

/// The bytes that a directory entry shows: plain memory, or the evaluated
/// initializer of a local static.
pub open spec fn entry_alloc(g: Option<GlobalAlloc>) -> Option<Allocation> {
    match g {
        Some(GlobalAlloc::Memory(a)) => Some(a),
        Some(GlobalAlloc::Static { foreign: false, init: Some(ConstValue::ByRef(a)), .. }) => Some(a),
        _ => None,
    }
}

/// The allocations that allocation `id` points to.
pub open spec fn edges(d: AllocMap, id: AllocId) -> Seq<AllocId> {
    match entry_alloc(lookup(d, id)) {
        Some(a) => alloc_targets(a),
        None => seq![],
    }
}

/// `r` lists each allocation reachable from `roots` exactly once: it holds the
/// roots, it is closed under `edges`, and each of its ids is a root or is
/// pointed to by an id listed before it.
pub open spec fn is_alloc_closure(r: Seq<AllocId>, roots: Seq<AllocId>, d: AllocMap) -> bool {
    &&& r.no_duplicates()
    &&& forall|x: AllocId| #[trigger] roots.contains(x) ==> r.contains(x)
    &&& forall|k: int, x: AllocId|
        0 <= k < r.len() && #[trigger] edges(d, r[k]).contains(x) ==> r.contains(x)
    &&& forall|k: int|
        0 <= k < r.len() ==> roots.contains(#[trigger] r[k]) || exists|j: int|
            0 <= j < k && edges(d, r[j]).contains(r[k])
}

/// Every pointer target stored anywhere in the directory.
pub open spec fn all_targets(es: Seq<Option<GlobalAlloc>>) -> Seq<AllocId>
    decreases es.len(),
{
    if es.len() == 0 {
        seq![]
    } else {
        all_targets(es.drop_last()) + match entry_alloc(es.last()) {
            Some(a) => alloc_targets(a),
            None => seq![],
        }
    }
}

proof fn lemma_edges_in_all_targets(d: AllocMap, id: AllocId, x: AllocId)
    requires
        edges(d, id).contains(x),
    ensures
        all_targets(d.entries@).contains(x),
{
    lemma_entry_in_all_targets(d.entries@, id.0 as int, x);
}

proof fn lemma_entry_in_all_targets(es: Seq<Option<GlobalAlloc>>, k: int, x: AllocId)
    requires
        0 <= k < es.len(),
        entry_alloc(es[k]) matches Some(a) && alloc_targets(a).contains(x),
    ensures
        all_targets(es).contains(x),
    decreases es.len(),
{
    let rest = all_targets(es.drop_last());
    let tail = match entry_alloc(es.last()) {
        Some(a) => alloc_targets(a),
        None => seq![],
    };
    if k == es.len() - 1 {
        let i = choose|i: int| 0 <= i < tail.len() && tail[i] == x;
        assert((rest + tail)[rest.len() + i] == x);
    } else {
        lemma_entry_in_all_targets(es.drop_last(), k, x);
        let i = choose|i: int| 0 <= i < rest.len() && rest[i] == x;
        assert((rest + tail)[i] == x);
    }
}

fn contains_id(v: &Vec<AllocId>, x: AllocId) -> (r: bool)
    ensures
        r == v@.contains(x),
{
    let mut k: usize = 0;
    while k < v.len()
        invariant
            k <= v@.len(),
            forall|m: int| 0 <= m < k ==> v@[m] != x,
        decreases v.len() - k,
    {
        if v[k] == x {
            assert(v@[k as int] == x);
            return true;
        }
        k = k + 1;
    }
    false
}

/// The bytes that the entry of `id` shows, if any.
fn entry_alloc_of(d: &AllocMap, id: AllocId) -> (r: Option<&Allocation>)
    ensures
        match r {
            Some(a) => entry_alloc(lookup(*d, id)) == Some(*a),
            None => entry_alloc(lookup(*d, id)) is None,
        },
{
    if id.0 >= d.entries.len() as u64 {
        return None;
    }
    match &d.entries[id.0 as usize] {
        Some(GlobalAlloc::Memory(a)) => Some(a),
        Some(GlobalAlloc::Static { foreign: false, init: Some(ConstValue::ByRef(a)), .. }) => Some(a),
        _ => None,
    }
}


/// A list without repeats, drawn from `u`, is no longer than `u`.
proof fn lemma_unique_within(s: Seq<AllocId>, u: Seq<AllocId>)
    requires
        s.no_duplicates(),
        forall|i: int| 0 <= i < s.len() ==> u.contains(#[trigger] s[i]),
    ensures
        s.len() <= u.len(),
{
    s.unique_seq_to_set();
    u.lemma_cardinality_of_set();
    assert(s.to_set().subset_of(u.to_set())) by {
        assert forall|x: AllocId| s.to_set().contains(x) implies u.to_set().contains(x) by {
            let i = choose|i: int| 0 <= i < s.len() && s[i] == x;
            assert(u.contains(s[i]));
        }
    }
    vstd::set_lib::lemma_len_subset(s.to_set(), u.to_set());
}

/// `done` and `todo` together list no id twice.
proof fn lemma_joint_unique(done: Seq<AllocId>, todo: Seq<AllocId>)
    requires
        done.no_duplicates(),
        todo.no_duplicates(),
        forall|i: int, j: int| 0 <= i < done.len() && 0 <= j < todo.len() ==> done[i] != todo[j],
    ensures
        (done + todo).no_duplicates(),
{
    let s = done + todo;
    assert forall|i: int, j: int| 0 <= i < s.len() && 0 <= j < s.len() && i != j implies s[i] != s[j] by {
        if i < done.len() && j >= done.len() {
            assert(done[i] != todo[j - done.len()]);
        } else if j < done.len() && i >= done.len() {
            assert(done[j] != todo[i - done.len()]);
        }
    }
}

/// Every allocation reachable from `roots` through the directory, each once,
/// in the order a worklist visits them: ids are tested against those already
/// seen before they are scheduled, so cycles of pointers end the walk.
#[verifier::rlimit(100)]
pub fn collect_alloc_ids(roots: &Vec<AllocId>, dir: &AllocMap) -> (r: Vec<AllocId>)
    ensures
        is_alloc_closure(r@, roots@, *dir),
{
    let ghost univ = roots@ + all_targets(dir.entries@);
    let mut todo: Vec<AllocId> = Vec::new();
    let mut k: usize = 0;
    while k < roots.len()
        invariant
            k <= roots@.len(),
            univ == roots@ + all_targets(dir.entries@),
            todo@.no_duplicates(),
            forall|m: int| 0 <= m < k ==> todo@.contains(#[trigger] roots@[m]),
            forall|m: int| 0 <= m < todo@.len() ==> roots@.contains(#[trigger] todo@[m]),
        decreases roots.len() - k,
    {
        let x = roots[k];
        let ghost prev = todo@;
        if !contains_id(&todo, x) {
            todo.push(x);
            proof {
                assert(todo@.last() == x);
            }
        }
        proof {
            assert forall|m: int| 0 <= m < k + 1 implies todo@.contains(#[trigger] roots@[m]) by {
                if m < k {
                    let i = choose|i: int| 0 <= i < prev.len() && prev[i] == roots@[m];
                    assert(todo@[i] == roots@[m]);
                } else if prev.contains(x) {
                    let i = choose|i: int| 0 <= i < prev.len() && prev[i] == x;
                    assert(todo@[i] == x);
                } else {
                    assert(todo@[prev.len() as int] == x);
                }
            }
        }
        k = k + 1;
    }
    let mut done: Vec<AllocId> = Vec::new();
    proof {
        assert forall|i: int| 0 <= i < todo@.len() implies univ.contains(#[trigger] todo@[i]) by {
            let m = choose|m: int| 0 <= m < roots@.len() && roots@[m] == todo@[i];
            assert(univ[m] == todo@[i]);
        }
        lemma_unique_within(todo@, univ);
    }
    while todo.len() > 0
        invariant
            univ == roots@ + all_targets(dir.entries@),
            done@.no_duplicates(),
            todo@.no_duplicates(),
            forall|i: int, j: int|
                0 <= i < done@.len() && 0 <= j < todo@.len() ==> done@[i] != todo@[j],
            forall|x: AllocId| #[trigger] roots@.contains(x) ==> done@.contains(x) || todo@.contains(x),
            forall|k: int, x: AllocId|
                0 <= k < done@.len() && #[trigger] edges(*dir, done@[k]).contains(x) ==> done@.contains(x)
                    || todo@.contains(x),
            forall|k: int|
                0 <= k < done@.len() ==> roots@.contains(#[trigger] done@[k]) || exists|j: int|
                    0 <= j < k && edges(*dir, done@[j]).contains(done@[k]),
            forall|t: int|
                0 <= t < todo@.len() ==> roots@.contains(#[trigger] todo@[t]) || exists|j: int|
                    0 <= j < done@.len() && edges(*dir, done@[j]).contains(todo@[t]),
            forall|i: int| 0 <= i < done@.len() ==> univ.contains(#[trigger] done@[i]),
            forall|i: int| 0 <= i < todo@.len() ==> univ.contains(#[trigger] todo@[i]),
            done@.len() + todo@.len() <= univ.len(),
        decreases univ.len() - (done@.len() + todo@.len()), todo@.len(),
    {
        let ghost done0 = done@;
        let ghost todo0 = todo@;
        let x = todo.pop().unwrap();
        done.push(x);
        proof {
            assert(todo0 == todo@.push(x));
            assert(done@ == done0.push(x));
            assert forall|t: int| 0 <= t < todo@.len() implies roots@.contains(#[trigger] todo@[t])
                || exists|j: int| 0 <= j < done@.len() && edges(*dir, done@[j]).contains(todo@[t]) by {
                assert(todo@[t] == todo0[t]);
                if !roots@.contains(todo@[t]) {
                    let j = choose|j: int| 0 <= j < done0.len() && edges(*dir, done0[j]).contains(todo0[t]);
                    assert(done@[j] == done0[j]);
                }
            }
            assert forall|k: int| 0 <= k < done@.len() implies roots@.contains(#[trigger] done@[k])
                || exists|j: int| 0 <= j < k && edges(*dir, done@[j]).contains(done@[k]) by {
                if k < done0.len() {
                    if !roots@.contains(done@[k]) {
                        let j = choose|j: int| 0 <= j < k && edges(*dir, done0[j]).contains(done0[k]);
                        assert(done@[j] == done0[j]);
                    }
                } else {
                    let t = todo0.len() - 1;
                    assert(todo0[t] == x);
                    if !roots@.contains(x) {
                        let j = choose|j: int| 0 <= j < done0.len() && edges(*dir, done0[j]).contains(todo0[t]);
                        assert(done@[j] == done0[j]);
                    }
                }
            }
            assert forall|i: int, j: int|
                0 <= i < done@.len() && 0 <= j < todo@.len() implies done@[i] != todo@[j] by {
                if i < done0.len() {
                    assert(todo@[j] == todo0[j]);
                } else {
                    assert(todo0[todo0.len() - 1] == x);
                    assert(todo@[j] == todo0[j]);
                }
            }
            assert(done@.no_duplicates()) by {
                assert forall|i: int| 0 <= i < done0.len() implies done0[i] != x by {
                    assert(todo0[todo0.len() - 1] == x);
                }
            }
            assert forall|y: AllocId| #[trigger] roots@.contains(y) implies done@.contains(y) || todo@.contains(y) by {
                if done0.contains(y) {
                    let i = choose|i: int| 0 <= i < done0.len() && done0[i] == y;
                    assert(done@[i] == y);
                } else {
                    let i = choose|i: int| 0 <= i < todo0.len() && todo0[i] == y;
                    if i == todo0.len() - 1 {
                        assert(done@[done0.len() as int] == y);
                    } else {
                        assert(todo@[i] == y);
                    }
                }
            }
            assert forall|k: int, y: AllocId|
                0 <= k < done0.len() && #[trigger] edges(*dir, done@[k]).contains(y) implies done@.contains(y)
                    || todo@.contains(y) by {
                assert(done@[k] == done0[k]);
                if done0.contains(y) {
                    let i = choose|i: int| 0 <= i < done0.len() && done0[i] == y;
                    assert(done@[i] == y);
                } else {
                    let i = choose|i: int| 0 <= i < todo0.len() && todo0[i] == y;
                    if i == todo0.len() - 1 {
                        assert(done@[done0.len() as int] == y);
                    } else {
                        assert(todo@[i] == y);
                    }
                }
            }
            assert forall|i: int| 0 <= i < done@.len() implies univ.contains(#[trigger] done@[i]) by {
                if i == done0.len() {
                    assert(todo0[todo0.len() - 1] == x);
                }
            }
        }
        let ghost n_done = done@.len();
        let ghost n_todo = todo@.len();
        match entry_alloc_of(dir, x) {
            None => {},
            Some(a) => {
                let rs = &a.relocations;
                let mut m: usize = rs.len();
                while m > 0
                    invariant
                        m <= rs@.len(),
                        rs@ == a.relocations@,
                        done@.len() == n_done,
                        todo@.len() >= n_todo,
                        entry_alloc(lookup(*dir, x)) == Some(*a),
                        done@.len() > 0,
                        done@.last() == x,
                        univ == roots@ + all_targets(dir.entries@),
                        done@.no_duplicates(),
                        todo@.no_duplicates(),
                        forall|i: int, j: int|
                            0 <= i < done@.len() && 0 <= j < todo@.len() ==> done@[i] != todo@[j],
                        forall|y: AllocId| #[trigger] roots@.contains(y) ==> done@.contains(y) || todo@.contains(y),
                        forall|k: int, y: AllocId|
                            0 <= k < done@.len() - 1 && #[trigger] edges(*dir, done@[k]).contains(y) ==> done@.contains(y)
                                || todo@.contains(y),
                        forall|q: int|
                            m <= q < rs@.len() ==> done@.contains(#[trigger] rs@[q].target) || todo@.contains(rs@[q].target),
                        forall|k: int|
                            0 <= k < done@.len() ==> roots@.contains(#[trigger] done@[k]) || exists|j: int|
                                0 <= j < k && edges(*dir, done@[j]).contains(done@[k]),
                        forall|t: int|
                            0 <= t < todo@.len() ==> roots@.contains(#[trigger] todo@[t]) || exists|j: int|
                                0 <= j < done@.len() && edges(*dir, done@[j]).contains(todo@[t]),
                        forall|i: int| 0 <= i < done@.len() ==> univ.contains(#[trigger] done@[i]),
                        forall|i: int| 0 <= i < todo@.len() ==> univ.contains(#[trigger] todo@[i]),
                        done@.len() + todo@.len() <= univ.len(),
                    decreases m,
                {
                    let t = rs[m - 1].target;
                    proof {
                        assert(edges(*dir, x) == alloc_targets(*a));
                        assert(alloc_targets(*a)[m - 1] == t);
                        assert(edges(*dir, x).contains(t));
                    }
                    if !contains_id(&done, t) && !contains_id(&todo, t) {
                        let ghost todo1 = todo@;
                        todo.push(t);
                        proof {
                            assert(todo@ == todo1.push(t));
                            assert(todo@.no_duplicates()) by {
                                assert forall|i: int| 0 <= i < todo1.len() implies todo1[i] != t by {
                                    assert(todo1.contains(todo1[i]));
                                }
                            }
                            assert forall|i: int, j: int|
                                0 <= i < done@.len() && 0 <= j < todo@.len() implies done@[i] != todo@[j] by {
                                if j < todo1.len() {
                                    assert(todo@[j] == todo1[j]);
                                } else {
                                    assert(done@.contains(done@[i]));
                                }
                            }
                            lemma_edges_in_all_targets(*dir, x, t);
                            let ai = choose|ai: int| 0 <= ai < all_targets(dir.entries@).len() && all_targets(dir.entries@)[ai] == t;
                            assert(univ[roots@.len() + ai] == t);
                            assert forall|i: int| 0 <= i < todo@.len() implies univ.contains(#[trigger] todo@[i]) by {
                                if i < todo1.len() {
                                    assert(todo@[i] == todo1[i]);
                                }
                            }
                            assert forall|tt: int| 0 <= tt < todo@.len() implies roots@.contains(#[trigger] todo@[tt])
                                || exists|j: int| 0 <= j < done@.len() && edges(*dir, done@[j]).contains(todo@[tt]) by {
                                if tt < todo1.len() {
                                    assert(todo@[tt] == todo1[tt]);
                                } else {
                                    assert(edges(*dir, done@[done@.len() - 1]).contains(todo@[tt]));
                                }
                            }
                            assert forall|y: AllocId| #[trigger] roots@.contains(y) implies done@.contains(y) || todo@.contains(y) by {
                                if todo1.contains(y) {
                                    let i = choose|i: int| 0 <= i < todo1.len() && todo1[i] == y;
                                    assert(todo@[i] == y);
                                }
                            }
                            assert forall|k: int, y: AllocId|
                                0 <= k < done@.len() - 1 && #[trigger] edges(*dir, done@[k]).contains(y) implies done@.contains(y)
                                    || todo@.contains(y) by {
                                if todo1.contains(y) {
                                    let i = choose|i: int| 0 <= i < todo1.len() && todo1[i] == y;
                                    assert(todo@[i] == y);
                                }
                            }
                            assert forall|q: int|
                                m - 1 <= q < rs@.len() implies done@.contains(#[trigger] rs@[q].target) || todo@.contains(rs@[q].target) by {
                                if q == m - 1 {
                                    assert(todo@[todo1.len() as int] == t);
                                } else if todo1.contains(rs@[q].target) {
                                    let i = choose|i: int| 0 <= i < todo1.len() && todo1[i] == rs@[q].target;
                                    assert(todo@[i] == rs@[q].target);
                                }
                            }
                            lemma_joint_unique(done@, todo@);
                            assert forall|i: int| 0 <= i < (done@ + todo@).len() implies univ.contains(#[trigger] (done@ + todo@)[i]) by {
                                if i < done@.len() {
                                    assert((done@ + todo@)[i] == done@[i]);
                                } else {
                                    assert((done@ + todo@)[i] == todo@[i - done@.len()]);
                                }
                            }
                            lemma_unique_within(done@ + todo@, univ);
                        }
                    }
                    m = m - 1;
                }
                proof {
                    assert forall|k: int, y: AllocId|
                        0 <= k < done@.len() && #[trigger] edges(*dir, done@[k]).contains(y) implies done@.contains(y)
                            || todo@.contains(y) by {
                        if k == done@.len() - 1 {
                            let q = choose|q: int| 0 <= q < alloc_targets(*a).len() && alloc_targets(*a)[q] == y;
                            assert(rs@[q].target == y);
                        }
                    }
                }
            },
        }
    }
    done
}


proof fn lemma_only_pair(r: Seq<AllocId>, roots: Seq<AllocId>, d: AllocMap, a: AllocId, b: AllocId, k: int)
    requires
        is_alloc_closure(r, roots, d),
        edges(d, a) == seq![b],
        edges(d, b) == seq![a],
        forall|x: AllocId| #[trigger] roots.contains(x) ==> x == a || x == b,
        0 <= k < r.len(),
    ensures
        r[k] == a || r[k] == b,
    decreases k,
{
    if !roots.contains(r[k]) {
        let j = choose|j: int| 0 <= j < k && edges(d, r[j]).contains(r[k]);
        lemma_only_pair(r, roots, d, a, b, j);
        if r[j] == a {
            assert(seq![b].contains(r[k]));
        } else {
            assert(seq![a].contains(r[k]));
        }
    }
}

/// Two allocations that point at each other, reached from either: the walk
/// lists both, each exactly once, and nothing else.
#[verifier::rlimit(100)]
pub proof fn lemma_mutual_pointers(
    r: Seq<AllocId>,
    roots: Seq<AllocId>,
    d: AllocMap,
    a: AllocId,
    b: AllocId,
)
    requires
        a != b,
        edges(d, a) == seq![b],
        edges(d, b) == seq![a],
        roots.len() > 0,
        forall|x: AllocId| #[trigger] roots.contains(x) ==> x == a || x == b,
        is_alloc_closure(r, roots, d),
    ensures
        r.len() == 2,
        r.contains(a),
        r.contains(b),
{
    assert(roots.contains(roots[0]));
    let first = roots[0];
    assert(r.contains(first));
    let i = choose|i: int| 0 <= i < r.len() && r[i] == first;
    if first == a {
        assert(seq![b][0] == b);
        assert(edges(d, r[i]).contains(b));
    } else {
        assert(seq![a][0] == a);
        assert(edges(d, r[i]).contains(a));
    }
    assert(r.contains(a) && r.contains(b));
    assert forall|k: int| 0 <= k < r.len() implies seq![a, b].contains(#[trigger] r[k]) by {
        lemma_only_pair(r, roots, d, a, b, k);
        if r[k] == a {
            assert(seq![a, b][0] == a);
        } else {
            assert(seq![a, b][1] == b);
        }
    }
    lemma_unique_within(r, seq![a, b]);
    let ia = choose|ia: int| 0 <= ia < r.len() && r[ia] == a;
    let ib = choose|ib: int| 0 <= ib < r.len() && r[ib] == b;
    assert(ia != ib);
}


/// A directory whose bytes can all be shown for the layout `dl`.
pub open spec fn dir_wf(d: AllocMap, dl: DataLayout) -> bool {
    &&& d.wf()
    &&& forall|k: int|
        0 <= k < d.entries@.len() ==> (entry_alloc(#[trigger] d.entries@[k]) matches Some(a) ==> a.wf(
            dl,
        ))
}

/// Whether every allocation of the directory can be shown for layout `dl`.
pub fn dir_is_valid(d: &AllocMap, dl: &DataLayout) -> (r: bool)
    ensures
        r == dir_wf(*d, *dl),
{
    let mut k: usize = 0;
    while k < d.entries.len()
        invariant
            k <= d.entries@.len(),
            forall|m: int|
                0 <= m < k ==> match #[trigger] d.entries@[m] {
                    Some(GlobalAlloc::Static { foreign: false, init: Some(v), .. }) => v is ByRef,
                    _ => true,
                },
            forall|m: int|
                0 <= m < k ==> (entry_alloc(#[trigger] d.entries@[m]) matches Some(a) ==> a.wf(*dl)),
        decreases d.entries.len() - k,
    {
        match &d.entries[k] {
            Some(GlobalAlloc::Static { foreign: false, init: Some(v), .. }) => {
                match v {
                    ConstValue::ByRef(a) => {
                        if !a.is_valid(dl) {
                            return false;
                        }
                    },
                    _ => {
                        return false;
                    },
                }
            },
            Some(GlobalAlloc::Memory(a)) => {
                if !a.is_valid(dl) {
                    return false;
                }
            },
            _ => {},
        }
        k = k + 1;
    }
    true
}

/// What follows an allocation's id in the appendix.
pub open spec fn entry_text(g: Option<GlobalAlloc>, dl: DataLayout) -> Seq<char> {
    match g {
        None => " (deallocated)"@,
        Some(GlobalAlloc::Function(desc)) => " (fn: "@ + desc@ + ")"@,
        Some(GlobalAlloc::Static { path, foreign, init }) => {
            if foreign {
                " (extern static: "@ + path@ + ")"@
            } else {
                match init {
                    Some(ConstValue::ByRef(a)) => " (static: "@ + path@ + ", "@ + allocation_text(a, dl),
                    _ => " (static: "@ + path@ + ", error during initializer evaluation)"@,
                }
            }
        },
        Some(GlobalAlloc::Memory(a)) => " ("@ + allocation_text(a, dl),
    }
}

/// The appendix entries for `ids`, in order: each on a line of its own after
/// an empty line.
pub open spec fn section_text(ids: Seq<AllocId>, d: AllocMap, dl: DataLayout) -> Seq<char>
    decreases ids.len(),
{
    if ids.len() == 0 {
        seq![]
    } else {
        let id = ids.last();
        section_text(ids.drop_last(), d, dl) + seq!['\n', 'a', 'l', 'l', 'o', 'c'] + dec(id.0 as nat)
            + entry_text(lookup(d, id), dl) + seq!['\n']
    }
}

#[verifier::rlimit(100)]
fn write_entry(d: &AllocMap, id: AllocId, dl: &DataLayout, out: &mut Vec<char>)
    requires
        dir_wf(*d, *dl),
    ensures
        final(out)@ == old(out)@ + entry_text(lookup(*d, id), *dl),
{
    if id.0 >= d.entries.len() as u64 {
        push_str(out, " (deallocated)");
        return;
    }
    let ghost k = id.0 as int;
    match &d.entries[id.0 as usize] {
        None => {
            push_str(out, " (deallocated)");
        },
        Some(GlobalAlloc::Function(desc)) => {
            push_str(out, " (fn: ");
            push_str(out, desc.as_str());
            push_str(out, ")");
        },
        Some(GlobalAlloc::Static { path, foreign, init }) => {
            if *foreign {
                push_str(out, " (extern static: ");
                push_str(out, path.as_str());
                push_str(out, ")");
            } else {
                match init {
                    Some(ConstValue::ByRef(a)) => {
                        proof {
                            assert(entry_alloc(d.entries@[k]) == Some(*a));
                        }
                        push_str(out, " (static: ");
                        push_str(out, path.as_str());
                        push_str(out, ", ");
                        write_allocation(a, dl, out);
                    },
                    _ => {
                        push_str(out, " (static: ");
                        push_str(out, path.as_str());
                        push_str(out, ", error during initializer evaluation)");
                    },
                }
            }
        },
        Some(GlobalAlloc::Memory(a)) => {
            proof {
                assert(entry_alloc(d.entries@[k]) == Some(*a));
            }
            push_str(out, " (");
            write_allocation(a, dl, out);
        },
    }
}

/// Writes the appendix of the allocations reachable from `roots`, and gives
/// back the ids it lists.
#[verifier::rlimit(100)]
pub(crate) fn write_section_traced(
    roots: &Vec<AllocId>,
    d: &AllocMap,
    dl: &DataLayout,
    out: &mut Vec<char>,
) -> (r: Ghost<Seq<AllocId>>)
    requires
        dir_wf(*d, *dl),
    ensures
        is_alloc_closure(r@, roots@, *d),
        final(out)@ == old(out)@ + section_text(r@, *d, *dl),
{
    let ids = collect_alloc_ids(roots, d);
    let mut k: usize = 0;
    while k < ids.len()
        invariant
            dir_wf(*d, *dl),
            k <= ids@.len(),
            out@ == old(out)@ + section_text(ids@.subrange(0, k as int), *d, *dl),
        decreases ids.len() - k,
    {
        let id = ids[k];
        let head: Vec<char> = vec!['\n', 'a', 'l', 'l', 'o', 'c'];
        crate::text::push_seq(out, &head);
        push_dec(out, id.0);
        write_entry(d, id, dl, out);
        out.push('\n');
        proof {
            let s = ids@.subrange(0, k + 1);
            assert(s.drop_last() == ids@.subrange(0, k as int));
            assert(s.last() == id);
            assert(out@ =~= old(out)@ + section_text(s, *d, *dl));
        }
        k = k + 1;
    }
    proof {
        assert(ids@.subrange(0, ids@.len() as int) == ids@);
    }
    Ghost(ids@)
}

/// Writes the appendix of the allocations reachable from `roots`: each found
/// id once, followed by what it stands for.
pub fn write_alloc_section(roots: &Vec<AllocId>, d: &AllocMap, dl: &DataLayout, out: &mut Vec<char>)
    requires
        dir_wf(*d, *dl),
    ensures
        exists|r: Seq<AllocId>|
            is_alloc_closure(r, roots@, *d) && final(out)@ == old(out)@ + section_text(r, *d, *dl),
{
    let r = write_section_traced(roots, d, dl, out);
    assert(is_alloc_closure(r@, roots@, *d) && out@ == old(out)@ + section_text(r@, *d, *dl));
}

} // verus!
