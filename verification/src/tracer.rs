//! Sector shape tracing: reconstructing closed vertex loops from a
//! sector's unordered linedef-index list.
//!
//! The traversal repeatedly picks the first linedef not yet assigned to a
//! loop, then extends the loop by scanning the sector's list in order for
//! a linedef sharing the current vertex at either endpoint (excluding ones
//! already placed in the current loop), advancing to that linedef's other
//! endpoint. A loop ends when no continuation is found; it is emitted even
//! if it never returns to its start vertex, a tolerated irregularity of
//! malformed archives.
//!
//! The result is pinned exactly by the spec model `spec_detect_shapes`.

use vstd::prelude::*;
use crate::model::Linedef;

verus! {

/// Whether `v` is one of the two endpoints of `l`.
pub open spec fn incident(l: Linedef, v: i16) -> bool {
    l.start_vert == v || l.end_vert == v
}

/// The endpoint of `l` other than `v` (its end vertex when `v` is the
/// start vertex, its start vertex otherwise).
pub open spec fn other_end(l: Linedef, v: i16) -> i16 {
    if l.start_vert == v {
        l.end_vert
    } else {
        l.start_vert
    }
}

/// Every entry of `ls` is a valid index into `lines`.
pub open spec fn valid_indices(lines: Seq<Linedef>, ls: Seq<i16>) -> bool {
    forall|j: int| 0 <= j < ls.len() ==> 0 <= #[trigger] ls[j] < lines.len()
}

/// The first position `>= j` of `ls` whose entry is not in `analyzed`,
/// or `-1` if there is none.
pub open spec fn find_start_from(ls: Seq<i16>, analyzed: Seq<i16>, j: int) -> int
    decreases ls.len() - j when 0 <= j <= ls.len()
{
    if j >= ls.len() {
        -1
    } else if !analyzed.contains(ls[j]) {
        j
    } else {
        find_start_from(ls, analyzed, j + 1)
    }
}

/// The first position `>= j` of `ls` whose entry is not in `shape` and is
/// incident to the vertex `v`, or `-1` if there is none.
pub open spec fn find_next_from(
    lines: Seq<Linedef>,
    ls: Seq<i16>,
    shape: Seq<i16>,
    v: i16,
    j: int,
) -> int
    decreases ls.len() - j when 0 <= j <= ls.len()
{
    if j >= ls.len() {
        -1
    } else if !shape.contains(ls[j]) && incident(lines[ls[j] as int], v) {
        j
    } else {
        find_next_from(lines, ls, shape, v, j + 1)
    }
}

/// Extends `shape` from current vertex `v` until no continuation is found,
/// always taking the first match in list order.
pub open spec fn trace_rec(
    lines: Seq<Linedef>,
    ls: Seq<i16>,
    shape: Seq<i16>,
    v: i16,
    fuel: nat,
) -> Seq<i16>
    decreases fuel,
{
    if fuel == 0 {
        shape
    } else {
        let j = find_next_from(lines, ls, shape, v, 0);
        if j < 0 {
            shape
        } else {
            trace_rec(lines, ls, shape.push(ls[j]), other_end(lines[ls[j] as int], v),
                (fuel - 1) as nat)
        }
    }
}

/// One traced loop, started from linedef `first`: the loop begins with
/// `first` and walks from its end vertex.
pub open spec fn traced_loop(lines: Seq<Linedef>, ls: Seq<i16>, first: i16) -> Seq<i16> {
    trace_rec(lines, ls, seq![first], lines[first as int].end_vert, ls.len())
}

/// Emits loops until every linedef has been assigned to a loop. The
/// fuel only bounds the recursion; one list position leaves the
/// unassigned set per loop, so the list's length is always enough.
pub open spec fn detect_rec(
    lines: Seq<Linedef>,
    ls: Seq<i16>,
    analyzed: Seq<i16>,
    fuel: nat,
) -> Seq<Seq<i16>>
    decreases fuel,
{
    if fuel == 0 {
        Seq::empty()
    } else {
        let p = find_start_from(ls, analyzed, 0);
        if p < 0 {
            Seq::empty()
        } else {
            let shape = traced_loop(lines, ls, ls[p]);
            Seq::empty().push(shape) + detect_rec(lines, ls, analyzed + shape,
                (fuel - 1) as nat)
        }
    }
}

/// The loops the tracer returns for linedef list `ls` over `lines`.
pub open spec fn spec_detect_shapes(lines: Seq<Linedef>, ls: Seq<i16>) -> Seq<Seq<i16>> {
    detect_rec(lines, ls, Seq::empty(), ls.len())
}

/// Whether `x` occurs in `v`.
pub fn contains_i16(v: &Vec<i16>, x: i16) -> (r: bool)
    ensures
        r == v@.contains(x),
{
    let mut i: usize = 0;
    while i < v.len()
        invariant
            i <= v@.len(),
            forall|k: int| 0 <= k < i ==> v@[k] != x,
        decreases v@.len() - i,
    {
        if v[i] == x {
            return true;
        }
        i = i + 1;
    }
    false
}

/// A duplicate-free sequence whose elements all occur in `ls` is no longer
/// than `ls`.
proof fn lemma_distinct_subseq_len(shape: Seq<i16>, ls: Seq<i16>)
    requires
        shape.no_duplicates(),
        forall|k: int| 0 <= k < shape.len() ==> ls.contains(#[trigger] shape[k]),
    ensures
        shape.len() <= ls.len(),
{
    shape.unique_seq_to_set();
    ls.lemma_cardinality_of_set();
    assert(shape.to_set().subset_of(ls.to_set())) by {
        assert(forall|x: i16| shape.to_set().contains(x) ==> shape.contains(x)
            && ls.contains(x) && ls.to_set().contains(x));
    }
    vstd::seq_lib::seq_to_set_is_finite::<i16>(ls);
    vstd::set_lib::lemma_len_subset(shape.to_set(), ls.to_set());
}

/// Reconstructs the closed (or tolerated partially closed) loops of the
/// linedef list `ls`: exactly the loops of the spec model, in order.
pub fn detect_shapes_in(lines: &Vec<Linedef>, ls: &Vec<i16>) -> (r: Vec<Vec<i16>>)
    requires
        valid_indices(lines@, ls@),
    ensures
        r.deep_view() == spec_detect_shapes(lines@, ls@),
{
    let ghost target = spec_detect_shapes(lines@, ls@);
    let mut shapes: Vec<Vec<i16>> = Vec::new();
    let mut analyzed: Vec<i16> = Vec::new();

    proof {
        vstd::seq_lib::seq_to_set_is_finite::<i16>(ls@);
        ls@.lemma_cardinality_of_set();
    }

    loop
        invariant_except_break
            valid_indices(lines@, ls@),
            shapes@.len() <= analyzed@.to_set().len(),
            analyzed@.to_set().subset_of(ls@.to_set()),
            analyzed@.to_set().finite(),
            shapes.deep_view() + detect_rec(lines@, ls@, analyzed@,
                (ls@.len() - shapes@.len()) as nat) == target,
            shapes@.len() <= ls@.len(),
        ensures
            shapes.deep_view() == target,
        decreases ls@.len() - shapes@.len(),
    {
        // find the first linedef not yet assigned to any loop
        let mut start: i16 = 0;
        let mut found = false;
        let mut j: usize = 0;
        while j < ls.len()
            invariant_except_break
                j <= ls@.len(),
                !found,
                find_start_from(ls@, analyzed@, 0) == find_start_from(ls@, analyzed@, j as int),
            ensures
                found ==> j < ls@.len() && start == ls@[j as int]
                    && !analyzed@.contains(start)
                    && find_start_from(ls@, analyzed@, 0) == j,
                !found ==> find_start_from(ls@, analyzed@, 0) == -1,
            decreases ls@.len() - j,
        {
            if !contains_i16(&analyzed, ls[j]) {
                start = ls[j];
                found = true;
                proof {
                    assert(find_start_from(ls@, analyzed@, j as int) == j as int);
                }
                break;
            }
            j = j + 1;
        }
        if !found {
            proof {
                assert(detect_rec(lines@, ls@, analyzed@,
                    (ls@.len() - shapes@.len()) as nat) =~= Seq::<Seq<i16>>::empty());
                assert(shapes.deep_view() =~= target);
            }
            break;
        }

        proof {
            // the spec model unfolds into this loop's trace
            assert(ls@.contains(start));
            assert(ls@.to_set().contains(start));
            assert(analyzed@.to_set().insert(start).subset_of(ls@.to_set()));
            vstd::set_lib::lemma_len_subset(analyzed@.to_set().insert(start), ls@.to_set());
            assert(!analyzed@.to_set().contains(start));
            assert(analyzed@.to_set().insert(start).len() == analyzed@.to_set().len() + 1);
            assert(analyzed@.to_set().len() + 1 <= ls@.to_set().len());
            ls@.lemma_cardinality_of_set();
            assert(shapes@.len() < ls@.len());
        }

        let ghost analyzed_entry = analyzed@;
        let ghost shape_target = traced_loop(lines@, ls@, start);

        let mut current: i16 = start;
        let mut current_vert: i16 = lines[current as usize].end_vert;
        let mut shape: Vec<i16> = Vec::new();
        shape.push(current);
        analyzed.push(current);

        loop
            invariant_except_break
                valid_indices(lines@, ls@),
                1 <= shape@.len() <= ls@.len(),
                shape@[0] == start,
                shape@.no_duplicates(),
                forall|k: int| 0 <= k < shape@.len() ==> ls@.contains(#[trigger] shape@[k]),
                analyzed@ == analyzed_entry + shape@,
                trace_rec(lines@, ls@, shape@, current_vert,
                    (ls@.len() - (shape@.len() - 1)) as nat) == shape_target,
            ensures
                shape@ == shape_target,
                shape@.len() >= 1 && shape@[0] == start,
                shape@.len() <= ls@.len(),
                forall|t: int| 0 <= t < shape@.len() ==> ls@.contains(#[trigger] shape@[t]),
                analyzed@ == analyzed_entry + shape@,
            decreases ls@.len() - shape@.len(),
        {
            // scan the list in order for a continuation at the current vertex
            let mut adv = false;
            let mut next: i16 = 0;
            let mut k: usize = 0;
            while k < ls.len()
                invariant_except_break
                    k <= ls@.len(),
                    !adv,
                    valid_indices(lines@, ls@),
                    find_next_from(lines@, ls@, shape@, current_vert, 0)
                        == find_next_from(lines@, ls@, shape@, current_vert, k as int),
                ensures
                    adv ==> k < ls@.len() && next == ls@[k as int]
                        && !shape@.contains(next)
                        && incident(lines@[next as int], current_vert)
                        && find_next_from(lines@, ls@, shape@, current_vert, 0) == k,
                    !adv ==> find_next_from(lines@, ls@, shape@, current_vert, 0) == -1,
                decreases ls@.len() - k,
            {
                let cand = ls[k];
                if !contains_i16(&shape, cand) {
                    let l2 = &lines[cand as usize];
                    if current_vert == l2.start_vert || current_vert == l2.end_vert {
                        next = cand;
                        adv = true;
                        proof {
                            assert(find_next_from(lines@, ls@, shape@, current_vert, k as int)
                                == k as int);
                        }
                        break;
                    }
                }
                k = k + 1;
            }

            if !adv {
                // no continuation: the spec trace stops here as well
                proof {
                    assert(trace_rec(lines@, ls@, shape@, current_vert,
                        (ls@.len() - (shape@.len() - 1)) as nat) == shape@);
                }
                break;
            }

            proof {
                assert(!shape@.contains(next));
                assert(shape@.push(next).no_duplicates());
                assert(ls@.contains(next));
                assert(forall|t: int| 0 <= t < shape@.push(next).len()
                    ==> ls@.contains(#[trigger] shape@.push(next)[t]));
                lemma_distinct_subseq_len(shape@.push(next), ls@);
                // the fuel is positive, so the spec trace takes this step too
                assert((ls@.len() - (shape@.len() - 1)) as nat > 0);
            }
            let l2 = &lines[next as usize];
            let nv = if l2.start_vert == current_vert {
                l2.end_vert
            } else {
                l2.start_vert
            };
            current = next;
            current_vert = nv;
            shape.push(next);
            analyzed.push(next);
        }

        proof {
            // reassemble the outer spec unfolding
            assert(detect_rec(lines@, ls@, analyzed_entry,
                (ls@.len() - shapes@.len()) as nat)
                == Seq::empty().push(shape_target) + detect_rec(lines@, ls@,
                    analyzed_entry + shape_target,
                    (ls@.len() - shapes@.len() - 1) as nat));
            // the analyzed set grew by at least the new start linedef
            assert(analyzed@[analyzed_entry.len() as int] == start);
            assert(analyzed@.contains(start));
            assert(analyzed@.to_set().contains(start));
            assert forall|x: i16| analyzed_entry.to_set().insert(start).contains(x)
                implies analyzed@.to_set().contains(x) by {
                if x == start {
                    assert(analyzed@.to_set().contains(x));
                } else {
                    assert(analyzed_entry.contains(x));
                    let w = choose|w: int| 0 <= w < analyzed_entry.len()
                        && analyzed_entry[w] == x;
                    assert(analyzed@[w] == x);
                    assert(analyzed@.contains(x));
                }
            }
            vstd::seq_lib::seq_to_set_is_finite::<i16>(analyzed@);
            vstd::set_lib::lemma_len_subset(analyzed_entry.to_set().insert(start),
                analyzed@.to_set());
            assert forall|x: i16| analyzed@.to_set().contains(x)
                implies ls@.to_set().contains(x) by {
                assert(analyzed@.contains(x));
                let w = choose|w: int| 0 <= w < analyzed@.len() && analyzed@[w] == x;
                if w < analyzed_entry.len() {
                    assert(analyzed_entry[w] == x);
                    assert(analyzed_entry.contains(x));
                    assert(analyzed_entry.to_set().contains(x));
                } else {
                    assert(shape@[w - analyzed_entry.len()] == x);
                    assert(ls@.contains(x));
                }
                assert(ls@.to_set().contains(x));
            }
        }
        let ghost pre = shapes.deep_view();
        shapes.push(shape);
        proof {
            assert(shape.deep_view() == shape_target);
            assert(shapes.deep_view() =~~= pre.push(shape_target));
            assert(pre + (Seq::empty().push(shape_target)
                + detect_rec(lines@, ls@, analyzed@,
                    (ls@.len() - shapes@.len()) as nat))
                =~= shapes.deep_view() + detect_rec(lines@, ls@, analyzed@,
                    (ls@.len() - shapes@.len()) as nat));
        }
    }
    shapes
}

} // verus!
