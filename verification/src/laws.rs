//! Laws of the sector shape tracer.
//!
//! The tracer's contract pins its result to the spec model
//! `spec_detect_shapes`; the lemmas here state what that model does on
//! well-formed sectors: a sector whose linedefs form one simple closed
//! polygon traces to exactly one loop holding them all, and a sector made
//! of two vertex-disjoint simple closed polygons (an outer boundary and a
//! pillar) traces to exactly two loops, one per polygon.

use vstd::prelude::*;
use crate::model::Linedef;
use crate::tracer::{detect_rec, find_next_from, find_start_from, incident, other_end,
    spec_detect_shapes, trace_rec, traced_loop, valid_indices};


verus! {

/// Whether the endpoints of `l` are exactly the vertices `a` and `b`, in
/// either direction.
pub open spec fn joins(l: Linedef, a: i16, b: i16) -> bool {
    (l.start_vert == a && l.end_vert == b) || (l.start_vert == b && l.end_vert == a)
}

/// Whether `cyc` and `vs` describe a simple closed polygon over `lines`:
/// at least three distinct linedefs, as many distinct vertices, and
/// linedef `cyc[i]` joining vertex `vs[i]` to the cyclically next vertex.
pub open spec fn is_simple_cycle(lines: Seq<Linedef>, cyc: Seq<i16>, vs: Seq<i16>) -> bool {
    let n = cyc.len() as int;
    &&& n >= 3
    &&& vs.len() == n
    &&& cyc.no_duplicates()
    &&& vs.no_duplicates()
    &&& (forall|i: int| 0 <= i < n ==> 0 <= #[trigger] cyc[i] < lines.len())
    &&& (forall|i: int| 0 <= i < n ==> joins(lines[(#[trigger] cyc[i]) as int], vs[i],
        vs[(i + 1) % n]))
}

/// Whether the cycle is one whole connected component of the list `ls`:
/// every cycle linedef occurs in `ls`, and every other linedef of `ls`
/// touches none of the cycle's vertices.
pub open spec fn cycle_component(
    lines: Seq<Linedef>,
    ls: Seq<i16>,
    cyc: Seq<i16>,
    vs: Seq<i16>,
) -> bool {
    &&& is_simple_cycle(lines, cyc, vs)
    &&& valid_indices(lines, ls)
    &&& (forall|i: int| 0 <= i < cyc.len() ==> ls.contains(#[trigger] cyc[i]))
    &&& (forall|j: int| 0 <= j < ls.len() ==> cyc.contains(#[trigger] ls[j])
        || (forall|p: int| 0 <= p < vs.len()
            ==> !incident(lines[ls[j] as int], #[trigger] vs[p])))
}

/// What `find_next_from` returns: either no position at or after `j`
/// holds an unplaced linedef incident to `v`, or the first such position.
proof fn lemma_find_next_char(lines: Seq<Linedef>, ls: Seq<i16>, shape: Seq<i16>, v: i16,
    j: int)
    requires
        0 <= j <= ls.len(),
    ensures
        find_next_from(lines, ls, shape, v, j) == -1 || find_next_from(lines, ls, shape, v,
            j) >= 0,
        find_next_from(lines, ls, shape, v, j) == -1 ==> (forall|k: int| j <= k < ls.len()
            ==> !(!shape.contains(#[trigger] ls[k]) && incident(lines[ls[k] as int], v))),
        find_next_from(lines, ls, shape, v, j) >= 0 ==> {
            let r = find_next_from(lines, ls, shape, v, j);
            j <= r < ls.len() && !shape.contains(ls[r]) && incident(lines[ls[r] as int], v)
        },
    decreases ls.len() - j,
{
    if j < ls.len() {
        if !shape.contains(ls[j]) && incident(lines[ls[j] as int], v) {
        } else {
            lemma_find_next_char(lines, ls, shape, v, j + 1);
        }
    }
}

/// What `find_start_from` returns: either every position at or after `j`
/// is already analyzed, or the first position that is not.
proof fn lemma_find_start_char(ls: Seq<i16>, analyzed: Seq<i16>, j: int)
    requires
        0 <= j <= ls.len(),
    ensures
        find_start_from(ls, analyzed, j) == -1 || find_start_from(ls, analyzed, j) >= 0,
        find_start_from(ls, analyzed, j) == -1 ==> (forall|k: int| j <= k < ls.len()
            ==> analyzed.contains(#[trigger] ls[k])),
        find_start_from(ls, analyzed, j) >= 0 ==> {
            let r = find_start_from(ls, analyzed, j);
            j <= r < ls.len() && !analyzed.contains(ls[r]) && (forall|k: int| j <= k < r
                ==> analyzed.contains(#[trigger] ls[k]))
        },
    decreases ls.len() - j,
{
    if j < ls.len() {
        if !analyzed.contains(ls[j]) {
        } else {
            lemma_find_start_char(ls, analyzed, j + 1);
        }
    }
}

/// Two integers less than one period apart with equal residues are equal.
proof fn lemma_mod_injective(a: int, b: int, n: int)
    requires
        n > 0,
        a <= b,
        b - a < n,
        a % n == b % n,
    ensures
        a == b,
{
    vstd::arithmetic::div_mod::lemma_fundamental_div_mod(a, n);
    vstd::arithmetic::div_mod::lemma_fundamental_div_mod(b, n);
    assert(b - a == n * ((b / n) - (a / n))) by (nonlinear_arith)
        requires
            a == n * (a / n) + a % n,
            b == n * (b / n) + b % n,
            a % n == b % n,
    ;
    assert(0 <= n * ((b / n) - (a / n)) < n);
    assert((b / n) - (a / n) == 0) by (nonlinear_arith)
        requires
            n > 0,
            0 <= n * ((b / n) - (a / n)) < n,
    ;
}

/// Residues are in range.
proof fn lemma_mod_range(x: int, n: int)
    requires
        n > 0,
    ensures
        0 <= x % n < n,
{
    vstd::arithmetic::div_mod::lemma_mod_bound(x, n);
}


/// The cycle position of the `i`-th linedef of an arc walked from
/// position `k0` in direction `d`.
pub open spec fn arc_at(k0: int, d: int, i: int, n: int) -> int {
    (k0 + d * i) % n
}

/// The cycle position of the vertex the walk stands on after placing `t`
/// linedefs from position `k0` in direction `d`.
pub open spec fn arc_cur(k0: int, d: int, t: int, n: int) -> int {
    (k0 + d * t + if d == 1 { 0int } else { 1int }) % n
}

/// An in-range value is its own residue.
proof fn lemma_mod_small(x: int, n: int)
    requires
        n > 0,
        0 <= x < n,
    ensures
        x % n == x,
{
    vstd::arithmetic::div_mod::lemma_small_mod(x as nat, n as nat);
}

/// Equal residues of shifted values collapse: `(x % n + y) % n == (x + y) % n`.
proof fn lemma_mod_shift(x: int, y: int, n: int)
    requires
        n > 0,
    ensures
        (x % n + y) % n == (x + y) % n,
{
    vstd::arithmetic::div_mod::lemma_add_mod_noop(x, y, n);
    vstd::arithmetic::div_mod::lemma_mod_twice(x, n);
    vstd::arithmetic::div_mod::lemma_add_mod_noop((x % n), y, n);
    vstd::arithmetic::div_mod::lemma_mod_twice(y, n);
}

/// A walk standing on an arc of a component cycle completes exactly that
/// cycle: the trace holds every cycle linedef once and nothing else.
proof fn lemma_trace_arc(
    lines: Seq<Linedef>,
    ls: Seq<i16>,
    cyc: Seq<i16>,
    vs: Seq<i16>,
    k0: int,
    d: int,
    t: int,
    shape: Seq<i16>,
    v: i16,
    fuel: nat,
)
    requires
        cycle_component(lines, ls, cyc, vs),
        0 <= k0 < cyc.len(),
        d == 1 || d == -1,
        1 <= t <= cyc.len(),
        shape.len() == t,
        forall|i: int| 0 <= i < t ==> shape[i] == cyc[arc_at(k0, d, i, cyc.len() as int)],
        v == vs[arc_cur(k0, d, t, cyc.len() as int)],
        fuel >= cyc.len() - t,
    ensures
        trace_rec(lines, ls, shape, v, fuel).len() == cyc.len(),
        forall|x: i16| trace_rec(lines, ls, shape, v, fuel).contains(x) <==> cyc.contains(x),
    decreases cyc.len() - t,
{
    let n = cyc.len() as int;
    let mv = arc_cur(k0, d, t, n);
    lemma_mod_range(k0 + d * t + if d == 1 { 0int } else { 1int }, n);
    let next_idx = arc_at(k0, d, t, n);
    lemma_mod_range(k0 + d * t, n);
    let inshape_idx: int = if d == 1 { (mv - 1) % n } else { mv };
    lemma_mod_range(mv - 1, n);

    // positions of the arc are in range
    assert forall|i: int| 0 <= i < t implies 0 <= #[trigger] arc_at(k0, d, i, n) < n by {
        lemma_mod_range(k0 + d * i, n);
    }

    // the walk's vertex sits between the last placed linedef and the next
    if d == 1 {
        // mv == (k0 + t) % n and the next linedef is cyc[mv]
        assert(next_idx == mv);
        // the linedef just placed is cyc[(mv - 1) % n]
        assert(shape[t - 1] == cyc[arc_at(k0, d, t - 1, n)]);
        assert((k0 + (t - 1)) % n == (mv - 1) % n) by {
            lemma_mod_shift(k0 + t, -1, n);
            lemma_mod_small(mv, n);
            assert((mv - 1) % n == (k0 + t - 1) % n) by {
                assert((mv + -1) % n == ((k0 + t) % n + -1) % n);
                lemma_mod_shift(k0 + t, -1, n);
            }
        }
        assert(cyc[inshape_idx] == shape[t - 1]);
    } else {
        // mv == (k0 - t + 1) % n; the next linedef is cyc[(mv - 1) % n]
        assert(shape[t - 1] == cyc[arc_at(k0, d, t - 1, n)]);
        assert((k0 + d * (t - 1)) % n == mv) by {
            assert(d * (t - 1) == d * t + 1) by (nonlinear_arith)
                requires
                    d == -1,
            ;
        }
        assert(cyc[inshape_idx] == shape[t - 1]);
        assert((mv - 1) % n == next_idx) by {
            lemma_mod_shift(k0 - t + 1, -1, n);
            assert(d * t == -t) by (nonlinear_arith)
                requires
                    d == -1,
            ;
        }
    }
    let next_pos: int = if d == 1 { mv } else { (mv - 1) % n };
    assert(next_pos == next_idx);
    assert(cyc[inshape_idx] == shape[t - 1]);
    assert(shape.contains(cyc[inshape_idx]));

    // every unplaced candidate at the current vertex is the next linedef
    assert forall|r: int| 0 <= r < ls.len() && !shape.contains(ls[r])
        && incident(lines[ls[r] as int], v) implies ls[r] == cyc[next_idx] by {
        if cyc.contains(ls[r]) {
            let jj = choose|jj: int| 0 <= jj < n && cyc[jj] == ls[r];
            assert(joins(lines[cyc[jj] as int], vs[jj], vs[(jj + 1) % n]));
            lemma_mod_range(jj + 1, n);
            assert(v == vs[mv]);
            if vs[jj] == v {
                // distinct vertices force the position to match
                assert(jj == mv);
            } else {
                assert(vs[(jj + 1) % n] == v);
                assert((jj + 1) % n == mv);
                // jj == (mv - 1) % n
                lemma_mod_range(mv - 1, n);
                assert(((mv - 1) % n + 1) % n == mv) by {
                    lemma_mod_shift(mv - 1, 1, n);
                    lemma_mod_small(mv, n);
                }
                if jj + 1 < n {
                    lemma_mod_small(jj + 1, n);
                    assert(jj + 1 == mv);
                    assert(jj == mv - 1);
                    lemma_mod_small(jj, n);
                    assert(jj == (mv - 1) % n);
                } else {
                    assert(jj == n - 1);
                    assert((jj + 1) % n == 0) by {
                        assert(jj + 1 == n);
                        vstd::arithmetic::div_mod::lemma_mod_self_0(n);
                    }
                    assert(mv == 0);
                    assert((mv - 1) % n == n - 1) by {
                        vstd::arithmetic::div_mod::lemma_mod_add_multiples_vanish(mv - 1, n);
                        lemma_mod_small(n - 1, n);
                    }
                    assert(jj == (mv - 1) % n);
                }
            }
            // of the two incident cycle linedefs, one is already placed
            if jj == mv || jj == (mv - 1) % n {
                if cyc[jj] != cyc[next_idx] {
                    assert(jj != next_idx);
                    assert(jj == inshape_idx || next_idx == inshape_idx || jj == next_idx)
                        by {
                        if d == 1 {
                            assert(next_idx == mv);
                        } else {
                            assert(next_idx == (mv - 1) % n);
                        }
                    }
                    assert(cyc[jj] == shape[t - 1]);
                    assert(shape.contains(ls[r]));
                }
            }
        } else {
            // a linedef outside the cycle touches none of its vertices
            assert(!incident(lines[ls[r] as int], vs[mv]));
        }
    }

    if t == n {
        // every cycle linedef is already placed: the walk stops here
        assert forall|jj: int| 0 <= jj < n implies shape.contains(#[trigger] cyc[jj]) by {
            let i = if d == 1 { (jj - k0) % n } else { (k0 - jj) % n };
            lemma_mod_range(jj - k0, n);
            lemma_mod_range(k0 - jj, n);
            assert(arc_at(k0, d, i, n) == jj) by {
                if d == 1 {
                    lemma_mod_shift(jj - k0, k0, n);
                    lemma_mod_small(jj, n);
                    assert((k0 + ((jj - k0) % n)) % n == (k0 + (jj - k0)) % n) by {
                        lemma_mod_shift(jj - k0, k0, n);
                    }
                } else {
                    assert((k0 + -1 * ((k0 - jj) % n)) % n == jj) by {
                        vstd::arithmetic::div_mod::lemma_sub_mod_noop_right(k0, k0 - jj, n);
                        lemma_mod_small(jj, n);
                    }
                }
            }
            assert(shape[i] == cyc[jj]);
        }
        lemma_find_next_char(lines, ls, shape, v, 0);
        if find_next_from(lines, ls, shape, v, 0) >= 0 {
            let r = find_next_from(lines, ls, shape, v, 0);
            assert(ls[r] == cyc[next_idx]);
            assert(shape.contains(cyc[next_idx]));
            assert(false);
        }
        assert(trace_rec(lines, ls, shape, v, fuel) == shape);
        assert forall|x: i16| shape.contains(x) implies cyc.contains(x) by {
            let i = choose|i: int| 0 <= i < shape.len() && shape[i] == x;
            assert(shape[i] == cyc[arc_at(k0, d, i, n)]);
        }
    } else {
        // the next linedef exists in the list and extends the walk
        assert(ls.contains(cyc[next_idx]));
        let jx = choose|jx: int| 0 <= jx < ls.len() && ls[jx] == cyc[next_idx];
        // the next linedef is not yet placed
        assert(!shape.contains(cyc[next_idx])) by {
            if shape.contains(cyc[next_idx]) {
                let i = choose|i: int| 0 <= i < shape.len() && shape[i] == cyc[next_idx];
                assert(cyc[arc_at(k0, d, i, n)] == cyc[next_idx]);
                assert(arc_at(k0, d, i, n) == next_idx);
                if d == 1 {
                    lemma_mod_injective(k0 + i, k0 + t, n);
                } else {
                    assert(d * t == -t && d * i == -i) by (nonlinear_arith)
                        requires
                            d == -1,
                    ;
                    lemma_mod_injective(k0 - t, k0 - i, n);
                }
                assert(false);
            }
        }
        // and it is incident to the walk's vertex
        assert(incident(lines[cyc[next_idx] as int], v)) by {
            assert(joins(lines[cyc[next_idx] as int], vs[next_idx], vs[(next_idx + 1) % n]));
            if d == 1 {
                assert(next_idx == mv);
            } else {
                assert((next_idx + 1) % n == mv) by {
                    assert(d * t == -t) by (nonlinear_arith)
                        requires
                            d == -1,
                    ;
                    lemma_mod_shift(k0 + d * t, 1, n);
                }
            }
        }
        lemma_find_next_char(lines, ls, shape, v, 0);
        if find_next_from(lines, ls, shape, v, 0) == -1 {
            assert(!(!shape.contains(ls[jx]) && incident(lines[ls[jx] as int], v)));
            assert(false);
        }
        assert(find_next_from(lines, ls, shape, v, 0) >= 0);
        let r = find_next_from(lines, ls, shape, v, 0);
        assert(0 <= r < ls.len());
        assert(ls[r] == cyc[next_idx]);
        let nl = lines[cyc[next_idx] as int];
        assert(joins(nl, vs[next_idx], vs[(next_idx + 1) % n]));
        lemma_mod_range(next_idx + 1, n);
        // the cycle's endpoints are distinct vertices
        assert(next_idx != (next_idx + 1) % n) by {
            if next_idx == (next_idx + 1) % n {
                lemma_mod_small(next_idx, n);
                lemma_mod_injective(next_idx, next_idx + 1, n);
            }
        }
        assert(vs[next_idx] != vs[(next_idx + 1) % n]);
        let v2 = other_end(nl, v);
        assert(v2 == if d == 1 { vs[(next_idx + 1) % n] } else { vs[next_idx] }) by {
            if d == 1 {
                assert(v == vs[next_idx]);
            } else {
                assert(v == vs[(next_idx + 1) % n]);
            }
        }
        // the extended arc satisfies the walk invariant one step further
        let shape2 = shape.push(ls[r]);
        assert forall|i: int| 0 <= i < t + 1 implies shape2[i] == cyc[arc_at(k0, d, i, n)] by {
            if i < t {
                assert(shape2[i] == shape[i]);
            } else {
                assert(shape2[i] == cyc[next_idx]);
            }
        }
        assert(v2 == vs[arc_cur(k0, d, t + 1, n)]) by {
            assert(d * (t + 1) == d * t + d) by (nonlinear_arith);
            if d == 1 {
                assert(arc_cur(k0, d, t + 1, n) == (k0 + d * t + 1) % n);
                assert((next_idx + 1) % n == (k0 + d * t + 1) % n) by {
                    lemma_mod_shift(k0 + d * t, 1, n);
                }
            } else {
                assert(arc_cur(k0, d, t + 1, n) == (k0 + d * t) % n);
                assert(arc_cur(k0, d, t + 1, n) == next_idx);
            }
        }
        lemma_trace_arc(lines, ls, cyc, vs, k0, d, t + 1, shape2,
            other_end(lines[ls[r] as int], v), (fuel - 1) as nat);
        assert(trace_rec(lines, ls, shape, v, fuel) == trace_rec(lines, ls, shape2,
            other_end(lines[ls[r] as int], v), (fuel - 1) as nat));
    }
}


/// A sector whose linedefs form a single simple closed polygon traces to
/// exactly one loop holding every one of them.
pub proof fn lemma_tracer_single_cycle(
    lines: Seq<Linedef>,
    ls: Seq<i16>,
    cyc: Seq<i16>,
    vs: Seq<i16>,
)
    requires
        cycle_component(lines, ls, cyc, vs),
        ls.no_duplicates(),
        forall|j: int| 0 <= j < ls.len() ==> cyc.contains(#[trigger] ls[j]),
    ensures
        ls.len() == cyc.len(),
        spec_detect_shapes(lines, ls).len() == 1,
        spec_detect_shapes(lines, ls)[0].len() == cyc.len(),
        forall|x: i16| spec_detect_shapes(lines, ls)[0].contains(x) <==> ls.contains(x),
{
    let n = cyc.len() as int;
    // the two lists are permutations of each other
    assert(ls.contains(cyc[0]));
    assert(ls.len() > 0);
    assert(ls.to_set() =~= cyc.to_set()) by {
        assert forall|x: i16| ls.to_set().contains(x) implies cyc.to_set().contains(x) by {
            assert(ls.contains(x));
            let j = choose|j: int| 0 <= j < ls.len() && ls[j] == x;
            assert(cyc.contains(x));
        }
        assert forall|x: i16| cyc.to_set().contains(x) implies ls.to_set().contains(x) by {
            assert(cyc.contains(x));
            let j = choose|j: int| 0 <= j < cyc.len() && cyc[j] == x;
            assert(ls.contains(x));
        }
    }
    ls.unique_seq_to_set();
    cyc.unique_seq_to_set();
    assert(ls.len() == n);

    // the first listed linedef starts the only loop
    assert(find_start_from(ls, Seq::empty(), 0) == 0) by {
        assert(!Seq::<i16>::empty().contains(ls[0]));
    }
    let first = ls[0];
    assert(cyc.contains(first));
    let k0 = choose|k0: int| 0 <= k0 < cyc.len() && cyc[k0] == first;
    let shape_t = traced_loop(lines, ls, first);
    assert(shape_t.len() == n && (forall|x: i16| shape_t.contains(x) <==> cyc.contains(x)))
        by {
        let v0 = lines[first as int].end_vert;
        assert(joins(lines[cyc[k0] as int], vs[k0], vs[(k0 + 1) % n]));
        lemma_mod_range(k0 + 1, n);
        lemma_mod_small(k0, n);
        let shape0 = seq![first];
        assert(shape0[0] == cyc[arc_at(k0, 1, 0, n)]);
        assert(shape0[0] == cyc[arc_at(k0, -1, 0, n)]);
        if v0 == vs[(k0 + 1) % n] {
            assert(v0 == vs[arc_cur(k0, 1, 1, n)]);
            lemma_trace_arc(lines, ls, cyc, vs, k0, 1, 1, shape0, v0, ls.len() as nat);
        } else {
            assert(v0 == vs[k0]);
            assert(arc_cur(k0, -1, 1, n) == k0);
            lemma_trace_arc(lines, ls, cyc, vs, k0, -1, 1, shape0, v0, ls.len() as nat);
        }
    }

    // afterwards everything is analyzed and the tracer stops
    let analyzed = Seq::<i16>::empty() + shape_t;
    assert(analyzed =~= shape_t);
    assert(find_start_from(ls, analyzed, 0) == -1) by {
        lemma_find_start_char(ls, analyzed, 0);
        if find_start_from(ls, analyzed, 0) >= 0 {
            let r = find_start_from(ls, analyzed, 0);
            assert(cyc.contains(ls[r]));
            assert(shape_t.contains(ls[r]));
            assert(false);
        }
    }
    assert(detect_rec(lines, ls, analyzed, (ls.len() - 1) as nat)
        =~= Seq::<Seq<i16>>::empty());
    assert(spec_detect_shapes(lines, ls) =~= Seq::<Seq<i16>>::empty().push(shape_t));
    assert(spec_detect_shapes(lines, ls)[0] == shape_t);
    assert forall|x: i16| spec_detect_shapes(lines, ls)[0].contains(x) <==> ls.contains(x)
        by {
        assert(shape_t.contains(x) <==> cyc.contains(x));
        assert(cyc.contains(x) <==> ls.to_set().contains(x) || !ls.to_set().contains(x)
            && cyc.contains(x));
        if cyc.contains(x) {
            assert(cyc.to_set().contains(x));
            assert(ls.to_set().contains(x));
            assert(ls.contains(x));
        }
        if ls.contains(x) {
            let j = choose|j: int| 0 <= j < ls.len() && ls[j] == x;
            assert(cyc.contains(x));
        }
    }
}

/// A sector whose four linedefs form a single simple closed quadrilateral
/// traces to exactly one loop containing all four.
pub proof fn lemma_tracer_simple_quadrilateral(
    lines: Seq<Linedef>,
    ls: Seq<i16>,
    cyc: Seq<i16>,
    vs: Seq<i16>,
)
    requires
        cycle_component(lines, ls, cyc, vs),
        cyc.len() == 4,
        ls.no_duplicates(),
        forall|j: int| 0 <= j < ls.len() ==> cyc.contains(#[trigger] ls[j]),
    ensures
        spec_detect_shapes(lines, ls).len() == 1,
        spec_detect_shapes(lines, ls)[0].len() == 4,
        forall|j: int| 0 <= j < ls.len() ==> spec_detect_shapes(lines, ls)[0].contains(
            #[trigger] ls[j]),
{
    lemma_tracer_single_cycle(lines, ls, cyc, vs);
}


/// A sector made of two vertex-disjoint simple closed polygons — an
/// outer boundary and a fully disjoint inner pillar — traces to exactly
/// two loops: first the polygon of the first listed linedef, then the
/// other.
pub proof fn lemma_tracer_two_cycles(
    lines: Seq<Linedef>,
    ls: Seq<i16>,
    cyc1: Seq<i16>,
    vs1: Seq<i16>,
    cyc2: Seq<i16>,
    vs2: Seq<i16>,
)
    requires
        cycle_component(lines, ls, cyc1, vs1),
        cycle_component(lines, ls, cyc2, vs2),
        ls.no_duplicates(),
        forall|j: int| 0 <= j < ls.len() ==> cyc1.contains(#[trigger] ls[j])
            || cyc2.contains(ls[j]),
        forall|i: int, j: int| 0 <= i < cyc1.len() && 0 <= j < cyc2.len()
            ==> #[trigger] cyc1[i] != #[trigger] cyc2[j],
        ls.len() > 0,
        cyc1.contains(ls[0]),
    ensures
        ls.len() == cyc1.len() + cyc2.len(),
        spec_detect_shapes(lines, ls).len() == 2,
        spec_detect_shapes(lines, ls)[0].len() == cyc1.len(),
        spec_detect_shapes(lines, ls)[1].len() == cyc2.len(),
        forall|x: i16| spec_detect_shapes(lines, ls)[0].contains(x) <==> cyc1.contains(x),
        forall|x: i16| spec_detect_shapes(lines, ls)[1].contains(x) <==> cyc2.contains(x),
{
    let n1 = cyc1.len() as int;
    let n2 = cyc2.len() as int;
    // the list is the disjoint union of the two cycles
    assert(ls.to_set() =~= cyc1.to_set() + cyc2.to_set()) by {
        assert forall|x: i16| ls.to_set().contains(x)
            implies (cyc1.to_set() + cyc2.to_set()).contains(x) by {
            assert(ls.contains(x));
            let j = choose|j: int| 0 <= j < ls.len() && ls[j] == x;
            if cyc1.contains(ls[j]) {
                assert(cyc1.to_set().contains(x));
            } else {
                assert(cyc2.to_set().contains(x));
            }
        }
        assert forall|x: i16| (cyc1.to_set() + cyc2.to_set()).contains(x)
            implies ls.to_set().contains(x) by {
            if cyc1.to_set().contains(x) {
                assert(cyc1.contains(x));
                let j = choose|j: int| 0 <= j < cyc1.len() && cyc1[j] == x;
                assert(ls.contains(x));
            } else {
                assert(cyc2.contains(x));
                let j = choose|j: int| 0 <= j < cyc2.len() && cyc2[j] == x;
                assert(ls.contains(x));
            }
        }
    }
    assert(cyc1.to_set().disjoint(cyc2.to_set())) by {
        assert forall|x: i16| cyc1.to_set().contains(x)
            implies !cyc2.to_set().contains(x) by {
            if cyc2.to_set().contains(x) {
                let i = choose|i: int| 0 <= i < cyc1.len() && cyc1[i] == x;
                let j = choose|j: int| 0 <= j < cyc2.len() && cyc2[j] == x;
                assert(cyc1[i] != cyc2[j]);
            }
        }
    }
    ls.unique_seq_to_set();
    cyc1.unique_seq_to_set();
    cyc2.unique_seq_to_set();
    vstd::seq_lib::seq_to_set_is_finite::<i16>(cyc1);
    vstd::seq_lib::seq_to_set_is_finite::<i16>(cyc2);
    vstd::set_lib::lemma_set_disjoint_lens(cyc1.to_set(), cyc2.to_set());
    let nn = ls.len() as int;
    assert(nn == n1 + n2);

    // the first loop walks the first linedef's polygon
    assert(find_start_from(ls, Seq::empty(), 0) == 0) by {
        assert(!Seq::<i16>::empty().contains(ls[0]));
    }
    let first = ls[0];
    let k0 = choose|k0: int| 0 <= k0 < cyc1.len() && cyc1[k0] == first;
    let shape1 = traced_loop(lines, ls, first);
    assert(shape1.len() == n1 && (forall|x: i16| shape1.contains(x) <==> cyc1.contains(x)))
        by {
        let v0 = lines[first as int].end_vert;
        assert(joins(lines[cyc1[k0] as int], vs1[k0], vs1[(k0 + 1) % n1]));
        lemma_mod_range(k0 + 1, n1);
        lemma_mod_small(k0, n1);
        let shape0 = seq![first];
        assert(shape0[0] == cyc1[arc_at(k0, 1, 0, n1)]);
        assert(shape0[0] == cyc1[arc_at(k0, -1, 0, n1)]);
        if v0 == vs1[(k0 + 1) % n1] {
            assert(v0 == vs1[arc_cur(k0, 1, 1, n1)]);
            lemma_trace_arc(lines, ls, cyc1, vs1, k0, 1, 1, shape0, v0, ls.len() as nat);
        } else {
            assert(v0 == vs1[k0]);
            assert(arc_cur(k0, -1, 1, n1) == k0);
            lemma_trace_arc(lines, ls, cyc1, vs1, k0, -1, 1, shape0, v0, ls.len() as nat);
        }
    }

    // the second loop starts at the first linedef of the other polygon
    let analyzed1 = Seq::<i16>::empty() + shape1;
    assert(analyzed1 =~= shape1);
    lemma_find_start_char(ls, analyzed1, 0);
    assert(ls.contains(cyc2[0]));
    let jc2 = choose|j: int| 0 <= j < ls.len() && ls[j] == cyc2[0];
    assert(!shape1.contains(cyc2[0])) by {
        if shape1.contains(cyc2[0]) {
            assert(cyc1.contains(cyc2[0]));
            let i = choose|i: int| 0 <= i < cyc1.len() && cyc1[i] == cyc2[0];
            assert(cyc1[i] != cyc2[0]);
        }
    }
    assert(find_start_from(ls, analyzed1, 0) >= 0) by {
        if find_start_from(ls, analyzed1, 0) == -1 {
            assert(analyzed1.contains(ls[jc2]));
            assert(false);
        }
    }
    let p2 = find_start_from(ls, analyzed1, 0);
    let second = ls[p2];
    assert(!analyzed1.contains(second));
    assert(cyc2.contains(second)) by {
        if cyc1.contains(second) {
            let i = choose|i: int| 0 <= i < cyc1.len() && cyc1[i] == second;
            assert(shape1.contains(second));
            assert(false);
        }
    }
    let q0 = choose|q0: int| 0 <= q0 < cyc2.len() && cyc2[q0] == second;
    let shape2 = traced_loop(lines, ls, second);
    assert(shape2.len() == n2 && (forall|x: i16| shape2.contains(x) <==> cyc2.contains(x)))
        by {
        let v0 = lines[second as int].end_vert;
        assert(joins(lines[cyc2[q0] as int], vs2[q0], vs2[(q0 + 1) % n2]));
        lemma_mod_range(q0 + 1, n2);
        lemma_mod_small(q0, n2);
        let shape0 = seq![second];
        assert(shape0[0] == cyc2[arc_at(q0, 1, 0, n2)]);
        assert(shape0[0] == cyc2[arc_at(q0, -1, 0, n2)]);
        if v0 == vs2[(q0 + 1) % n2] {
            assert(v0 == vs2[arc_cur(q0, 1, 1, n2)]);
            lemma_trace_arc(lines, ls, cyc2, vs2, q0, 1, 1, shape0, v0, ls.len() as nat);
        } else {
            assert(v0 == vs2[q0]);
            assert(arc_cur(q0, -1, 1, n2) == q0);
            lemma_trace_arc(lines, ls, cyc2, vs2, q0, -1, 1, shape0, v0, ls.len() as nat);
        }
    }

    // afterwards everything is analyzed
    let analyzed2 = analyzed1 + shape2;
    assert(find_start_from(ls, analyzed2, 0) == -1) by {
        lemma_find_start_char(ls, analyzed2, 0);
        if find_start_from(ls, analyzed2, 0) >= 0 {
            let r = find_start_from(ls, analyzed2, 0);
            if cyc1.contains(ls[r]) {
                assert(shape1.contains(ls[r]));
                let w = choose|w: int| 0 <= w < shape1.len() && shape1[w] == ls[r];
                assert(analyzed2[w] == ls[r]);
                assert(analyzed2.contains(ls[r]));
            } else {
                assert(cyc2.contains(ls[r]));
                assert(shape2.contains(ls[r]));
                let w = choose|w: int| 0 <= w < shape2.len() && shape2[w] == ls[r];
                assert(analyzed2[analyzed1.len() + w] == ls[r]);
                assert(analyzed2.contains(ls[r]));
            }
            assert(false);
        }
    }

    assert(spec_detect_shapes(lines, ls) =~= Seq::<Seq<i16>>::empty().push(shape1).push(
        shape2)) by {
        assert(detect_rec(lines, ls, analyzed2, (nn - 2) as nat)
            =~= Seq::<Seq<i16>>::empty());
        assert(detect_rec(lines, ls, analyzed1, (nn - 1) as nat)
            =~= Seq::<Seq<i16>>::empty().push(shape2));
        assert(Seq::<Seq<i16>>::empty().push(shape1) + Seq::<Seq<i16>>::empty().push(shape2)
            =~= Seq::<Seq<i16>>::empty().push(shape1).push(shape2));
    }
    assert(spec_detect_shapes(lines, ls)[0] == shape1);
    assert(spec_detect_shapes(lines, ls)[1] == shape2);
}

} // verus!
