//! Matching the entries of a saved checkpoint with the parameters that they belong to.
use vstd::prelude::*;
use vstd::string::*;

verus! {

/// The order of strings: character by character, with a prefix before what it begins.
pub open spec fn lex_lt(a: Seq<char>, b: Seq<char>) -> bool
    decreases a.len(),
{
    if b.len() == 0 {
        false
    } else if a.len() == 0 {
        true
    } else if a[0] != b[0] {
        (a[0] as int) < (b[0] as int)
    } else {
        lex_lt(a.drop_first(), b.drop_first())
    }
}

/// An entry of a checkpoint and the parameter that it is loaded into, by their places.
#[derive(Clone, Copy, Debug, PartialEq, Eq, Structural)]
pub struct CheckpointLoad {
    pub entry: usize,
    pub target: usize,
}

/// Whether entry `i` is loaded before entry `j`: by name, and entries of one name in the order in
/// which they were saved.
pub open spec fn loads_before(saved: Seq<String>, i: int, j: int) -> bool {
    lex_lt(saved[i]@, saved[j]@) || (saved[i]@ == saved[j]@ && i < j)
}

/// Whether `target` is the first parameter with the given name.
pub open spec fn is_target(known: Seq<String>, name: Seq<char>, target: int) -> bool {
    &&& 0 <= target < known.len()
    &&& known[target]@ == name
    &&& forall|t: int| 0 <= t < target ==> (#[trigger] known[t])@ != name
}

/// Whether a parameter has the given name.
pub open spec fn is_known(known: Seq<String>, name: Seq<char>) -> bool {
    exists|t: int| 0 <= t < known.len() && (#[trigger] known[t])@ == name
}

/// Whether `loads` takes each of the first `count` saved entries whose name is known, and no
/// other, into the parameter of that name, in order.
pub open spec fn is_load_order(
    saved: Seq<String>,
    known: Seq<String>,
    loads: Seq<CheckpointLoad>,
    count: int,
) -> bool {
    &&& forall|i: int|
        0 <= i < loads.len() ==> (#[trigger] loads[i]).entry < count && is_target(
            known,
            saved[loads[i].entry as int]@,
            loads[i].target as int,
        )
    &&& forall|e: int|
        0 <= e < count && is_known(known, (#[trigger] saved[e])@) ==> exists|i: int|
            0 <= i < loads.len() && (#[trigger] loads[i]).entry == e
    &&& forall|i: int, j: int|
        0 <= i < j < loads.len() ==> loads_before(
            saved,
            (#[trigger] loads[i]).entry as int,
            (#[trigger] loads[j]).entry as int,
        )
}

fn precedes(a: &String, b: &String) -> (r: bool)
    ensures
        r == lex_lt(a@, b@),
{
    let a_len: usize = a.as_str().unicode_len();
    let b_len: usize = b.as_str().unicode_len();
    let mut i: usize = 0;
    assert(a@.skip(0) =~= a@);
    assert(b@.skip(0) =~= b@);
    while i < a_len && i < b_len
        invariant
            a_len == a@.len(),
            b_len == b@.len(),
            i <= a_len,
            i <= b_len,
            lex_lt(a@, b@) == lex_lt(a@.skip(i as int), b@.skip(i as int)),
        decreases a_len - i,
    {
        let x: char = a.as_str().get_char(i);
        let y: char = b.as_str().get_char(i);
        assert(a@.skip(i as int)[0] == x);
        assert(b@.skip(i as int)[0] == y);
        if x != y {
            return x < y;
        }
        assert(a@.skip(i as int).drop_first() =~= a@.skip(i + 1));
        assert(b@.skip(i as int).drop_first() =~= b@.skip(i + 1));
        i = i + 1;
    }
    i < b_len
}

fn find_name(known: &Vec<String>, name: &String) -> (r: Option<usize>)
    ensures
        match r {
            Some(t) => is_target(known@, name@, t as int),
            None => !is_known(known@, name@),
        },
{
    let mut t: usize = 0;
    while t < known.len()
        invariant
            t <= known.len(),
            forall|u: int| 0 <= u < t ==> (#[trigger] known@[u])@ != name@,
        decreases known.len() - t,
    {
        if known[t] == *name {
            return Some(t);
        }
        t = t + 1;
    }
    None
}

/// The loads that bring a checkpoint with the entries `saved` into the parameters `known`:
/// entries of known name, sorted by name, where entries of one name stay in saved order.
pub fn load_order(saved: &Vec<String>, known: &Vec<String>) -> (r: Vec<CheckpointLoad>)
    ensures
        is_load_order(saved@, known@, r@, saved.len() as int),
{
    let mut loads: Vec<CheckpointLoad> = Vec::new();
    let mut e: usize = 0;
    while e < saved.len()
        invariant
            e <= saved.len(),
            is_load_order(saved@, known@, loads@, e as int),
        decreases saved.len() - e,
    {
        match find_name(known, &saved[e]) {
            None => {},
            Some(target) => {
                let mut p: usize = 0;
                while p < loads.len() && !precedes(&saved[e], &saved[loads[p].entry])
                    invariant
                        p <= loads.len(),
                        e < saved.len(),
                        is_load_order(saved@, known@, loads@, e as int),
                        forall|i: int|
                            0 <= i < p ==> !lex_lt(
                                saved@[e as int]@,
                                saved@[(#[trigger] loads@[i]).entry as int]@,
                            ),
                    decreases loads.len() - p,
                {
                    p = p + 1;
                }
                let load = CheckpointLoad { entry: e, target };
                let ghost before = loads@;
                loads.insert(p, load);
                proof {
                    lemma_insert_keeps_order(saved@, known@, before, e as int, p as int, load);
                }
            },
        }
        e = e + 1;
    }
    loads
}

proof fn lemma_lex_irreflexive(a: Seq<char>)
    ensures
        !lex_lt(a, a),
    decreases a.len(),
{
    if a.len() > 0 {
        lemma_lex_irreflexive(a.drop_first());
    }
}

proof fn lemma_lex_total(a: Seq<char>, b: Seq<char>)
    ensures
        lex_lt(a, b) || lex_lt(b, a) || a == b,
    decreases a.len(),
{
    if a.len() == 0 || b.len() == 0 {
        if a.len() == b.len() {
            assert(a =~= b);
        }
    } else {
        lemma_lex_total(a.drop_first(), b.drop_first());
        if a[0] == b[0] && a.drop_first() == b.drop_first() {
            assert(a =~= seq![a[0]] + a.drop_first());
            assert(b =~= seq![b[0]] + b.drop_first());
        }
    }
}

proof fn lemma_lex_transitive(a: Seq<char>, b: Seq<char>, c: Seq<char>)
    requires
        lex_lt(a, b),
        lex_lt(b, c),
    ensures
        lex_lt(a, c),
    decreases a.len(),
{
    if a.len() > 0 && b.len() > 0 && c.len() > 0 && a[0] == b[0] && b[0] == c[0] {
        lemma_lex_transitive(a.drop_first(), b.drop_first(), c.drop_first());
    }
}

proof fn lemma_insert_keeps_order(
    saved: Seq<String>,
    known: Seq<String>,
    loads: Seq<CheckpointLoad>,
    e: int,
    p: int,
    load: CheckpointLoad,
)
    requires
        0 <= e < saved.len(),
        0 <= p <= loads.len(),
        is_load_order(saved, known, loads, e),
        load.entry == e,
        is_target(known, saved[e]@, load.target as int),
        forall|i: int|
            0 <= i < p ==> !lex_lt(saved[e]@, saved[(#[trigger] loads[i]).entry as int]@),
        p < loads.len() ==> lex_lt(saved[e]@, saved[loads[p].entry as int]@),
    ensures
        is_load_order(saved, known, loads.insert(p, load), e + 1),
{
    let after = loads.insert(p, load);
    assert forall|i: int| 0 <= i < after.len() implies (#[trigger] after[i]).entry < e + 1
        && is_target(known, saved[after[i].entry as int]@, after[i].target as int) by {
        if i < p {
            assert(after[i] == loads[i]);
        } else if i > p {
            assert(after[i] == loads[i - 1]);
        }
    }
    assert forall|d: int| 0 <= d < e + 1 && is_known(known, (#[trigger] saved[d])@) implies exists|
        i: int,
    |
        0 <= i < after.len() && (#[trigger] after[i]).entry == d by {
        if d == e {
            assert(after[p].entry == d);
        } else {
            let i = choose|i: int| 0 <= i < loads.len() && (#[trigger] loads[i]).entry == d;
            if i < p {
                assert(after[i] == loads[i]);
            } else {
                assert(after[i + 1] == loads[i]);
            }
        }
    }
    assert forall|i: int, j: int| 0 <= i < j < after.len() implies loads_before(
        saved,
        (#[trigger] after[i]).entry as int,
        (#[trigger] after[j]).entry as int,
    ) by {
        if i < p && j < p {
            assert(after[i] == loads[i] && after[j] == loads[j]);
        } else if i < p && j == p {
            assert(after[i] == loads[i]);
            lemma_lex_total(saved[loads[i].entry as int]@, saved[e]@);
        } else if i < p {
            assert(after[i] == loads[i] && after[j] == loads[j - 1]);
        } else if i == p {
            assert(after[j] == loads[j - 1]);
            if j - 1 > p {
                let at_p = saved[loads[p].entry as int]@;
                let at_j = saved[loads[j - 1].entry as int]@;
                assert(loads_before(saved, loads[p].entry as int, loads[j - 1].entry as int));
                if lex_lt(at_p, at_j) {
                    lemma_lex_transitive(saved[e]@, at_p, at_j);
                }
            }
        } else {
            assert(after[i] == loads[i - 1] && after[j] == loads[j - 1]);
        }
    }
}

/// The order of names goes by the first character in which they differ; where there is none, the
/// shorter name comes first. Here the names `a` and `b` agree in their first `k` characters.
pub proof fn lemma_order_of_names(a: Seq<char>, b: Seq<char>, k: int)
    requires
        0 <= k <= a.len(),
        k <= b.len(),
        forall|i: int| 0 <= i < k ==> #[trigger] a[i] == b[i],
    ensures
        k < a.len() && k < b.len() && (a[k] as int) < (b[k] as int) ==> lex_lt(a, b),
        k < a.len() && k < b.len() && (a[k] as int) > (b[k] as int) ==> !lex_lt(a, b),
        k == a.len() && k < b.len() ==> lex_lt(a, b),
        k == b.len() ==> !lex_lt(a, b),
    decreases k,
{
    if k > 0 {
        assert(a[0] == b[0]);
        let x = a.drop_first();
        let y = b.drop_first();
        assert forall|i: int| 0 <= i < k - 1 implies #[trigger] x[i] == y[i] by {
            assert(a[i + 1] == b[i + 1]);
        }
        lemma_order_of_names(x, y, k - 1);
    }
}

/// What is loaded: each entry whose name a parameter has, once, into the first parameter of that
/// name, and no other entry; in the order of the names, and of one name in the order in which the
/// entries were saved.
pub proof fn lemma_load_order_loads(
    saved: Seq<String>,
    known: Seq<String>,
    loads: Seq<CheckpointLoad>,
)
    requires
        is_load_order(saved, known, loads, saved.len() as int),
    ensures
        forall|i: int|
            0 <= i < loads.len() ==> {
                let load = #[trigger] loads[i];
                &&& load.entry < saved.len() && load.target < known.len()
                &&& known[load.target as int]@ == saved[load.entry as int]@
                &&& forall|t: int|
                    0 <= t < load.target ==> (#[trigger] known[t])@ != saved[load.entry as int]@
            },
        forall|e: int, t: int|
            0 <= e < saved.len() && 0 <= t < known.len() && (#[trigger] known[t])@ == (
            #[trigger] saved[e])@ ==> exists|i: int|
                0 <= i < loads.len() && (#[trigger] loads[i]).entry == e,
        forall|i: int, j: int|
            0 <= i < j < loads.len() ==> {
                let first = (#[trigger] loads[i]).entry as int;
                let second = (#[trigger] loads[j]).entry as int;
                &&& first != second
                &&& lex_lt(saved[first]@, saved[second]@) || (saved[first]@ == saved[second]@
                    && first < second)
            },
{
    assert forall|e: int, t: int|
        0 <= e < saved.len() && 0 <= t < known.len() && (#[trigger] known[t])@ == (
        #[trigger] saved[e])@ implies exists|i: int|
        0 <= i < loads.len() && (#[trigger] loads[i]).entry == e by {
        assert(is_known(known, saved[e]@));
    }
    assert forall|i: int, j: int| 0 <= i < j < loads.len() implies {
        let first = (#[trigger] loads[i]).entry as int;
        let second = (#[trigger] loads[j]).entry as int;
        &&& first != second
        &&& lex_lt(saved[first]@, saved[second]@) || (saved[first]@ == saved[second]@ && first
            < second)
    } by {
        assert(loads_before(saved, loads[i].entry as int, loads[j].entry as int));
        lemma_lex_irreflexive(saved[loads[i].entry as int]@);
    }
}

/// Where a checkpoint holds several entries of one name, they are loaded in the order in which
/// they were saved, so that the last one stays.
pub proof fn lemma_last_entry_stays(
    saved: Seq<String>,
    known: Seq<String>,
    loads: Seq<CheckpointLoad>,
    i: int,
    j: int,
)
    requires
        is_load_order(saved, known, loads, saved.len() as int),
        0 <= i < j < loads.len(),
        loads[i].target == loads[j].target,
    ensures
        loads[i].entry < loads[j].entry,
{
    assert(loads_before(saved, loads[i].entry as int, loads[j].entry as int));
    assert(is_target(known, saved[loads[i].entry as int]@, loads[i].target as int));
    assert(is_target(known, saved[loads[j].entry as int]@, loads[j].target as int));
    lemma_lex_irreflexive(saved[loads[i].entry as int]@);
}

/// What is loaded, and in which order, is determined by the names alone.
pub proof fn lemma_load_order_unique(
    saved: Seq<String>,
    known: Seq<String>,
    a: Seq<CheckpointLoad>,
    b: Seq<CheckpointLoad>,
)
    requires
        is_load_order(saved, known, a, saved.len() as int),
        is_load_order(saved, known, b, saved.len() as int),
    ensures
        a == b,
{
    let n = if a.len() <= b.len() {
        a.len() as int
    } else {
        b.len() as int
    };
    lemma_prefix_agrees(saved, known, a, b, n);
    if n == b.len() {
        lemma_no_extra(saved, known, a, b, n);
    } else {
        lemma_no_extra(saved, known, b, a, n);
    }
    assert(a.take(n) =~= a);
    assert(b.take(n) =~= b);
}

proof fn lemma_prefix_agrees(
    saved: Seq<String>,
    known: Seq<String>,
    a: Seq<CheckpointLoad>,
    b: Seq<CheckpointLoad>,
    i: int,
)
    requires
        is_load_order(saved, known, a, saved.len() as int),
        is_load_order(saved, known, b, saved.len() as int),
        0 <= i <= a.len(),
        i <= b.len(),
    ensures
        a.take(i) == b.take(i),
    decreases i,
{
    if i > 0 {
        lemma_prefix_agrees(saved, known, a, b, i - 1);
        lemma_entry_agrees(saved, known, a, b, i - 1);
        assert(a.take(i) =~= a.take(i - 1).push(a[i - 1]));
        assert(b.take(i) =~= b.take(i - 1).push(b[i - 1]));
    }
    assert(a.take(i) =~= b.take(i));
}

proof fn lemma_before_asymmetric(saved: Seq<String>, i: int, j: int)
    requires
        loads_before(saved, i, j),
    ensures
        !loads_before(saved, j, i),
{
    lemma_lex_irreflexive(saved[i]@);
    if lex_lt(saved[i]@, saved[j]@) && lex_lt(saved[j]@, saved[i]@) {
        lemma_lex_transitive(saved[i]@, saved[j]@, saved[i]@);
    }
}

proof fn lemma_no_extra(
    saved: Seq<String>,
    known: Seq<String>,
    a: Seq<CheckpointLoad>,
    b: Seq<CheckpointLoad>,
    i: int,
)
    requires
        is_load_order(saved, known, a, saved.len() as int),
        is_load_order(saved, known, b, saved.len() as int),
        i == b.len(),
        i <= a.len(),
        a.take(i) == b.take(i),
    ensures
        i == a.len(),
{
    if i < a.len() {
        let e = a[i].entry as int;
        assert(is_target(known, saved[e]@, a[i].target as int));
        assert(is_known(known, saved[e]@));
        let k = choose|k: int| 0 <= k < b.len() && (#[trigger] b[k]).entry == e;
        assert(b[k] == b.take(i)[k]);
        assert(a[k] == a.take(i)[k]);
        assert(loads_before(saved, a[k].entry as int, a[i].entry as int));
        lemma_before_asymmetric(saved, e, e);
    }
}

proof fn lemma_entry_agrees(
    saved: Seq<String>,
    known: Seq<String>,
    a: Seq<CheckpointLoad>,
    b: Seq<CheckpointLoad>,
    i: int,
)
    requires
        is_load_order(saved, known, a, saved.len() as int),
        is_load_order(saved, known, b, saved.len() as int),
        0 <= i < a.len(),
        i < b.len(),
        a.take(i) == b.take(i),
    ensures
        a[i] == b[i],
{
    let ea = a[i].entry as int;
    let eb = b[i].entry as int;
    assert(is_target(known, saved[ea]@, a[i].target as int));
    assert(is_target(known, saved[eb]@, b[i].target as int));
    if ea != eb {
        assert(is_known(known, saved[ea]@));
        assert(is_known(known, saved[eb]@));
        let ka = choose|k: int| 0 <= k < b.len() && (#[trigger] b[k]).entry == ea;
        let kb = choose|k: int| 0 <= k < a.len() && (#[trigger] a[k]).entry == eb;
        if ka < i {
            assert(b[ka] == b.take(i)[ka]);
            assert(a[ka] == a.take(i)[ka]);
            assert(loads_before(saved, a[ka].entry as int, a[i].entry as int));
            lemma_before_asymmetric(saved, ea, ea);
        }
        if kb < i {
            assert(b[kb] == b.take(i)[kb]);
            assert(a[kb] == a.take(i)[kb]);
            assert(loads_before(saved, b[kb].entry as int, b[i].entry as int));
            lemma_before_asymmetric(saved, eb, eb);
        }
        assert(loads_before(saved, b[i].entry as int, b[ka].entry as int));
        assert(loads_before(saved, a[i].entry as int, a[kb].entry as int));
        lemma_before_asymmetric(saved, ea, eb);
    } else {
        let ta = a[i].target as int;
        let tb = b[i].target as int;
        assert(known[ta]@ == known[tb]@);
        if ta < tb {
            assert(known[ta]@ != saved[ea]@);
        }
        if tb < ta {
            assert(known[tb]@ != saved[ea]@);
        }
    }
}

} // verus!
