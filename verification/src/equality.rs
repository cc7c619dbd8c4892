use vstd::prelude::*;
use crate::ops::{ColRef, ColSpec};
use crate::schema::{cols_contain, cols_model};

verus! {

/// Disjoint classes of columns known to be equal, built from the equalities
/// that a join order has consumed.
#[derive(Debug)]
pub struct EqualityFactSet {
    sets: Vec<Vec<ColRef>>,
}

/// The classes held by a list of column lists: each list taken as a set.
pub open spec fn classes_of(sets: Seq<Vec<ColRef>>) -> Seq<Set<ColSpec>> {
    Seq::new(sets.len(), |i: int| cols_model(sets[i]@).to_set())
}

/// No column belongs to two classes.
pub open spec fn pairwise_disjoint(classes: Seq<Set<ColSpec>>) -> bool {
    forall|i: int, j: int, x: ColSpec|
        0 <= i < classes.len() && 0 <= j < classes.len() && #[trigger] classes[i].contains(x)
            && #[trigger] classes[j].contains(x) ==> i == j
}

/// Some class holds both `a` and `b`.
pub open spec fn same_class(classes: Seq<Set<ColSpec>>, a: ColSpec, b: ColSpec) -> bool {
    exists|i: int| 0 <= i < classes.len() && #[trigger] classes[i].contains(a) && classes[i].contains(b)
}

/// In disjoint classes, a column of class `i` is related to exactly the columns of class `i`.
proof fn lemma_related_to_member(classes: Seq<Set<ColSpec>>, i: int, c: ColSpec, x: ColSpec)
    requires
        pairwise_disjoint(classes),
        0 <= i < classes.len(),
        classes[i].contains(c),
    ensures
        same_class(classes, x, c) == classes[i].contains(x),
{
    if classes[i].contains(x) {
        assert(classes[i].contains(x) && classes[i].contains(c));
    }
}

/// Being in one class is symmetric.
pub proof fn lemma_same_class_symmetric(classes: Seq<Set<ColSpec>>, a: ColSpec, b: ColSpec)
    requires
        same_class(classes, a, b),
    ensures
        same_class(classes, b, a),
{
    let i = choose|i: int|
        0 <= i < classes.len() && #[trigger] classes[i].contains(a) && classes[i].contains(b);
    assert(classes[i].contains(b) && classes[i].contains(a));
}

/// Among disjoint classes, being in one class is transitive.
pub proof fn lemma_same_class_transitive(
    classes: Seq<Set<ColSpec>>,
    a: ColSpec,
    b: ColSpec,
    c: ColSpec,
)
    requires
        pairwise_disjoint(classes),
        same_class(classes, a, b),
        same_class(classes, b, c),
    ensures
        same_class(classes, a, c),
{
    let i = choose|i: int|
        0 <= i < classes.len() && #[trigger] classes[i].contains(a) && classes[i].contains(b);
    let j = choose|j: int|
        0 <= j < classes.len() && #[trigger] classes[j].contains(b) && classes[j].contains(c);
    assert(i == j);
    assert(classes[i].contains(a) && classes[i].contains(c));
}

/// What a list of equalities implies, it implies in both directions.
pub proof fn lemma_implied_symmetric(pairs: Seq<(ColSpec, ColSpec)>, x: ColSpec, y: ColSpec)
    ensures
        implied(pairs, x, y) == implied(pairs, y, x),
    decreases pairs.len(),
{
    if pairs.len() > 0 {
        lemma_implied_symmetric(pairs.drop_last(), x, y);
    }
}

/// Two equalities that share a column imply that their outer columns are
/// equal, and nothing of a column that neither of them names.
pub proof fn lemma_chain_implies(a: ColSpec, b: ColSpec, c: ColSpec, d: ColSpec)
    requires
        d != a,
        d != b,
        d != c,
    ensures
        implied(seq![(a, b), (b, c)], a, c),
        !implied(seq![(a, b), (b, c)], a, d),
{
    let both = seq![(a, b), (b, c)];
    let first = seq![(a, b)];
    let none = Seq::<(ColSpec, ColSpec)>::empty();
    assert(both.drop_last() =~= first);
    assert(first.drop_last() =~= none);
    assert(both.last() == (b, c));
    assert(first.last() == (a, b));
    reveal_with_fuel(implied, 3);
    reveal_with_fuel(touched, 3);
    assert(touched(none, a, a, b));
    assert(touched(none, b, a, b));
    assert(implied(first, a, b));
    assert(touched(first, a, b, c));
    assert(touched(first, c, b, c));
    assert(!touched(none, d, a, b));
    assert(!implied(first, d, b));
    assert(!implied(first, d, c));
    assert(!touched(first, d, b, c));
    assert(!implied(first, a, d));
}

/// Nothing is related to a column that no class holds.
proof fn lemma_unrelated_to_stranger(classes: Seq<Set<ColSpec>>, c: ColSpec, x: ColSpec)
    requires
        forall|j: int| 0 <= j < classes.len() ==> !(#[trigger] classes[j].contains(c)),
    ensures
        !same_class(classes, x, c),
{
}

/// Replacing class `i` by a larger set whose new columns belong to no other class
/// relates, beyond what was related, exactly the columns of the new set.
proof fn lemma_grow_class(
    classes: Seq<Set<ColSpec>>,
    i: int,
    grown: Set<ColSpec>,
    after: Seq<Set<ColSpec>>,
)
    requires
        pairwise_disjoint(classes),
        0 <= i < classes.len(),
        classes[i].subset_of(grown),
        forall|x: ColSpec, j: int|
            0 <= j < classes.len() && j != i && grown.contains(x) ==> !(#[trigger] classes[j].contains(x)),
        after == classes.update(i, grown),
    ensures
        pairwise_disjoint(after),
        forall|x: ColSpec, y: ColSpec|
            #[trigger] same_class(after, x, y) == (same_class(classes, x, y) || (grown.contains(x)
                && grown.contains(y))),
{
    assert forall|x: ColSpec, y: ColSpec|
        #[trigger] same_class(after, x, y) == (same_class(classes, x, y) || (grown.contains(x)
            && grown.contains(y))) by {
        if same_class(after, x, y) {
            let k = choose|k: int|
                0 <= k < after.len() && #[trigger] after[k].contains(x) && after[k].contains(y);
            if k != i {
                assert(classes[k].contains(x) && classes[k].contains(y));
            }
        }
        if same_class(classes, x, y) {
            let k = choose|k: int|
                0 <= k < classes.len() && #[trigger] classes[k].contains(x) && classes[k].contains(
                    y,
                );
            assert(after[k].contains(x) && after[k].contains(y));
        }
        if grown.contains(x) && grown.contains(y) {
            assert(after[i].contains(x) && after[i].contains(y));
        }
    }
    assert forall|a: int, b: int, x: ColSpec|
        0 <= a < after.len() && 0 <= b < after.len() && #[trigger] after[a].contains(x)
            && #[trigger] after[b].contains(x) implies a == b by {
        if a != i && b != i {
            assert(classes[a].contains(x) && classes[b].contains(x));
        } else if a != i {
            assert(classes[a].contains(x));
        } else if b != i {
            assert(classes[b].contains(x));
        }
    }
}

/// Adding a class whose columns belong to no class yet relates, beyond what was
/// related, exactly the columns of the new class.
proof fn lemma_push_class(classes: Seq<Set<ColSpec>>, fresh: Set<ColSpec>, after: Seq<Set<ColSpec>>)
    requires
        pairwise_disjoint(classes),
        forall|x: ColSpec, j: int|
            0 <= j < classes.len() && fresh.contains(x) ==> !(#[trigger] classes[j].contains(x)),
        after == classes.push(fresh),
    ensures
        pairwise_disjoint(after),
        forall|x: ColSpec, y: ColSpec|
            #[trigger] same_class(after, x, y) == (same_class(classes, x, y) || (fresh.contains(x)
                && fresh.contains(y))),
{
    let n = classes.len() as int;
    assert forall|x: ColSpec, y: ColSpec|
        #[trigger] same_class(after, x, y) == (same_class(classes, x, y) || (fresh.contains(x)
            && fresh.contains(y))) by {
        if same_class(after, x, y) {
            let k = choose|k: int|
                0 <= k < after.len() && #[trigger] after[k].contains(x) && after[k].contains(y);
            if k != n {
                assert(classes[k].contains(x) && classes[k].contains(y));
            }
        }
        if same_class(classes, x, y) {
            let k = choose|k: int|
                0 <= k < classes.len() && #[trigger] classes[k].contains(x) && classes[k].contains(
                    y,
                );
            assert(after[k].contains(x) && after[k].contains(y));
        }
        if fresh.contains(x) && fresh.contains(y) {
            assert(after[n].contains(x) && after[n].contains(y));
        }
    }
    assert forall|a: int, b: int, x: ColSpec|
        0 <= a < after.len() && 0 <= b < after.len() && #[trigger] after[a].contains(x)
            && #[trigger] after[b].contains(x) implies a == b by {
        if a != n && b != n {
            assert(classes[a].contains(x) && classes[b].contains(x));
        } else if a != n {
            assert(classes[a].contains(x));
        } else if b != n {
            assert(classes[b].contains(x));
        }
    }
}

/// Taking class `j` away leaves the other classes disjoint, and relates what was
/// related outside class `j`.
proof fn lemma_drop_class(classes: Seq<Set<ColSpec>>, j: int, after: Seq<Set<ColSpec>>)
    requires
        pairwise_disjoint(classes),
        0 <= j < classes.len(),
        after == classes.remove(j),
    ensures
        pairwise_disjoint(after),
        forall|x: ColSpec, y: ColSpec|
            #[trigger] same_class(after, x, y) == (same_class(classes, x, y) && !classes[j].contains(
                x,
            )),
        forall|x: ColSpec, k: int|
            0 <= k < after.len() && #[trigger] after[k].contains(x) ==> !classes[j].contains(x),
{
    assert forall|k: int| 0 <= k < after.len() implies #[trigger] after[k] == classes[if k < j {
        k
    } else {
        k + 1
    }] by {}
    assert forall|x: ColSpec, k: int|
        0 <= k < after.len() && #[trigger] after[k].contains(x) implies !classes[j].contains(x) by {
        let k0 = if k < j { k } else { k + 1 };
        assert(classes[k0].contains(x));
    }
    assert forall|x: ColSpec, y: ColSpec|
        #[trigger] same_class(after, x, y) == (same_class(classes, x, y) && !classes[j].contains(
            x,
        )) by {
        if same_class(after, x, y) {
            let k = choose|k: int|
                0 <= k < after.len() && #[trigger] after[k].contains(x) && after[k].contains(y);
            let k0 = if k < j { k } else { k + 1 };
            assert(classes[k0].contains(x) && classes[k0].contains(y));
        }
        if same_class(classes, x, y) && !classes[j].contains(x) {
            let k = choose|k: int|
                0 <= k < classes.len() && #[trigger] classes[k].contains(x) && classes[k].contains(
                    y,
                );
            let k1 = if k < j { k } else { k - 1 };
            assert(after[k1].contains(x) && after[k1].contains(y));
        }
    }
    assert forall|a: int, b: int, x: ColSpec|
        0 <= a < after.len() && 0 <= b < after.len() && #[trigger] after[a].contains(x)
            && #[trigger] after[b].contains(x) implies a == b by {
        let a0 = if a < j { a } else { a + 1 };
        let b0 = if b < j { b } else { b + 1 };
        assert(classes[a0].contains(x) && classes[b0].contains(x));
    }
}

/// The index of the class that holds `x`, if one does.
pub open spec fn class_of(classes: Seq<Set<ColSpec>>, x: ColSpec) -> Option<int> {
    if exists|i: int| 0 <= i < classes.len() && #[trigger] classes[i].contains(x) {
        Some(choose|i: int| 0 <= i < classes.len() && #[trigger] classes[i].contains(x))
    } else {
        None
    }
}

/// The classes after the equality of `a` and `b` has been recorded: where both
/// have a class, the class of `b` is merged into that of `a`; where one has a
/// class, the other joins it; where neither has one, the two make a new class
/// at the end.
pub open spec fn classes_after(classes: Seq<Set<ColSpec>>, a: ColSpec, b: ColSpec) -> Seq<
    Set<ColSpec>,
> {
    match (class_of(classes, a), class_of(classes, b)) {
        (Some(i), Some(j)) => if i == j {
            classes
        } else {
            classes.remove(j).update(
                if j < i {
                    i - 1
                } else {
                    i
                },
                classes[i].union(classes[j]),
            )
        },
        (Some(i), None) => classes.update(i, classes[i].insert(b)),
        (None, Some(j)) => classes.update(j, classes[j].insert(a)),
        (None, None) => classes.push(Set::empty().insert(a).insert(b)),
    }
}

/// Among disjoint classes, the class that holds a column is the one class of it.
proof fn lemma_class_of(classes: Seq<Set<ColSpec>>, x: ColSpec, i: int)
    requires
        pairwise_disjoint(classes),
        0 <= i < classes.len(),
        classes[i].contains(x),
    ensures
        class_of(classes, x) == Some(i),
{
}

/// `x` is one of `a` and `b`, or in one class with one of them.
pub open spec fn touches_pair(classes: Seq<Set<ColSpec>>, x: ColSpec, a: ColSpec, b: ColSpec) -> bool {
    x == a || x == b || same_class(classes, x, a) || same_class(classes, x, b)
}

/// What recording the equality of `a` and `b` relates: what was related, and any
/// two columns that each touch `a` or `b`.
pub open spec fn related_after(
    classes: Seq<Set<ColSpec>>,
    a: ColSpec,
    b: ColSpec,
    x: ColSpec,
    y: ColSpec,
) -> bool {
    same_class(classes, x, y) || (touches_pair(classes, x, a, b) && touches_pair(classes, y, a, b))
}

/// `x` is one of `a` and `b`, or implied to be equal to one of them by `pairs`.
pub open spec fn touched(pairs: Seq<(ColSpec, ColSpec)>, x: ColSpec, a: ColSpec, b: ColSpec) -> bool
    decreases pairs.len(), 1nat,
{
    x == a || x == b || implied(pairs, x, a) || implied(pairs, x, b)
}

/// The equalities `pairs`, recorded one after the other, imply that `x` and `y`
/// are equal.
pub open spec fn implied(pairs: Seq<(ColSpec, ColSpec)>, x: ColSpec, y: ColSpec) -> bool
    decreases pairs.len(), 0nat,
{
    if pairs.len() == 0 {
        false
    } else {
        let before = pairs.drop_last();
        let a = pairs.last().0;
        let b = pairs.last().1;
        implied(before, x, y) || (touched(before, x, a, b) && touched(before, y, a, b))
    }
}

/// The relation that holds of the pairs of columns that `pairs` imply to be equal.
pub open spec fn implied_relation(pairs: Seq<(ColSpec, ColSpec)>) -> spec_fn(ColSpec, ColSpec) -> bool {
    |x: ColSpec, y: ColSpec| implied(pairs, x, y)
}

fn find_class(sets: &Vec<Vec<ColRef>>, c: &ColRef) -> (res: Option<usize>)
    ensures
        match res {
            Some(i) => i < sets.len() && classes_of(sets@)[i as int].contains(c@),
            None => forall|j: int|
                0 <= j < sets.len() ==> !(#[trigger] classes_of(sets@)[j].contains(c@)),
        },
{
    let mut i: usize = 0;
    while i < sets.len()
        invariant
            i <= sets.len(),
            forall|j: int| 0 <= j < i ==> !(#[trigger] classes_of(sets@)[j].contains(c@)),
        decreases sets.len() - i,
    {
        if cols_contain(sets[i].as_slice(), c) {
            return Some(i);
        }
        i += 1;
    }
    None
}

/// Adds `c` to class `i`, which no other class holds.
fn add_to_class(sets: &mut Vec<Vec<ColRef>>, i: usize, c: &ColRef)
    requires
        i < old(sets).len(),
    ensures
        classes_of(final(sets)@) == classes_of(old(sets)@).update(
            i as int,
            classes_of(old(sets)@)[i as int].insert(c@),
        ),
{
    let ghost before = classes_of(sets@);
    let mut target = sets.remove(i);
    target.push(c.clone());
    sets.insert(i, target);
    assert(classes_of(sets@) =~~= before.update(i as int, before[i as int].insert(c@))) by {
        assert forall|x: ColSpec|
            classes_of(sets@)[i as int].contains(x) == before[i as int].insert(c@).contains(
                x,
            ) by {
            let old_cols = cols_model(old(sets)@[i as int]@);
            let new_cols = cols_model(sets@[i as int]@);
            assert(new_cols =~= old_cols.push(c@));
            if new_cols.contains(x) {
                let k = choose|k: int| 0 <= k < new_cols.len() && new_cols[k] == x;
                if k < old_cols.len() {
                    assert(old_cols[k] == x);
                }
            }
            if old_cols.contains(x) {
                let k = choose|k: int| 0 <= k < old_cols.len() && old_cols[k] == x;
                assert(new_cols[k] == x);
            }
            if x == c@ {
                assert(new_cols[old_cols.len() as int] == x);
            }
        }
    }
}

/// Records that `c1` and `c2` are equal: joins their classes, or starts one.
fn record_equality(sets: &mut Vec<Vec<ColRef>>, c1: &ColRef, c2: &ColRef)
    requires
        pairwise_disjoint(classes_of(old(sets)@)),
    ensures
        pairwise_disjoint(classes_of(final(sets)@)),
        classes_of(final(sets)@) == classes_after(classes_of(old(sets)@), c1@, c2@),
        forall|x: ColSpec, y: ColSpec|
            #[trigger] same_class(classes_of(final(sets)@), x, y) == related_after(
                classes_of(old(sets)@),
                c1@,
                c2@,
                x,
                y,
            ),
{
    let ghost before = classes_of(sets@);
    let ghost a = c1@;
    let ghost b = c2@;
    let i1 = find_class(sets, c1);
    let i2 = find_class(sets, c2);
    proof {
        match i1 {
            Some(i) => {
                lemma_class_of(before, a, i as int);
            },
            None => {},
        }
        match i2 {
            Some(j) => {
                lemma_class_of(before, b, j as int);
            },
            None => {},
        }
    }
    match i1 {
        Some(i) => match i2 {
            Some(j) => {
                if i != j {
                    let mut moved = sets.remove(j);
                    let ghost mid = classes_of(sets@);
                    let k: usize = if j < i { i - 1 } else { i };
                    let mut target = sets.remove(k);
                    let ghost target_cols = cols_model(target@);
                    let ghost moved_cols = cols_model(moved@);
                    target.append(&mut moved);
                    assert(cols_model(target@) =~= target_cols + moved_cols);
                    sets.insert(k, target);
                    proof {
                        let after = classes_of(sets@);
                        let grown = before[i as int].union(before[j as int]);
                        assert(mid =~~= before.remove(j as int));
                        assert(mid[k as int] == before[i as int]);
                        assert(after =~~= mid.update(k as int, grown)) by {
                            assert forall|x: ColSpec|
                                after[k as int].contains(x) == grown.contains(x) by {
                                let all = target_cols + moved_cols;
                                if all.contains(x) {
                                    let m = choose|m: int| 0 <= m < all.len() && all[m] == x;
                                    if m < target_cols.len() {
                                        assert(target_cols[m] == x);
                                    } else {
                                        assert(moved_cols[m - target_cols.len()] == x);
                                    }
                                }
                                if target_cols.contains(x) {
                                    let m = choose|m: int|
                                        0 <= m < target_cols.len() && target_cols[m] == x;
                                    assert(all[m] == x);
                                }
                                if moved_cols.contains(x) {
                                    let m = choose|m: int|
                                        0 <= m < moved_cols.len() && moved_cols[m] == x;
                                    assert(all[target_cols.len() + m] == x);
                                }
                            }
                        }
                        lemma_drop_class(before, j as int, mid);
                        lemma_grow_class(mid, k as int, grown, after);
                        assert forall|x: ColSpec, y: ColSpec|
                            #[trigger] same_class(after, x, y) == related_after(
                                before,
                                a,
                                b,
                                x,
                                y,
                            ) by {
                            lemma_related_to_member(before, i as int, a, x);
                            lemma_related_to_member(before, j as int, b, x);
                            lemma_related_to_member(before, i as int, a, y);
                            lemma_related_to_member(before, j as int, b, y);
                            if same_class(before, x, y) && before[j as int].contains(x) {
                                let m = choose|m: int|
                                    0 <= m < before.len() && #[trigger] before[m].contains(x)
                                        && before[m].contains(y);
                                assert(m == j);
                            }
                        }
                    }
                } else {
                    proof {
                        assert forall|x: ColSpec, y: ColSpec|
                            #[trigger] same_class(before, x, y) == related_after(
                                before,
                                a,
                                b,
                                x,
                                y,
                            ) by {
                            lemma_related_to_member(before, i as int, a, x);
                            lemma_related_to_member(before, i as int, b, x);
                            lemma_related_to_member(before, i as int, a, y);
                            lemma_related_to_member(before, i as int, b, y);
                            if before[i as int].contains(x) && before[i as int].contains(y) {
                                assert(same_class(before, x, y));
                            }
                        }
                    }
                }
            },
            None => {
                add_to_class(sets, i, c2);
                proof {
                    let after = classes_of(sets@);
                    let grown = before[i as int].insert(b);
                    lemma_grow_class(before, i as int, grown, after);
                    assert forall|x: ColSpec, y: ColSpec|
                        #[trigger] same_class(after, x, y) == related_after(before, a, b, x, y) by {
                        lemma_related_to_member(before, i as int, a, x);
                        lemma_related_to_member(before, i as int, a, y);
                        lemma_unrelated_to_stranger(before, b, x);
                        lemma_unrelated_to_stranger(before, b, y);
                    }
                }
            },
        },
        None => match i2 {
            Some(j) => {
                add_to_class(sets, j, c1);
                proof {
                    let after = classes_of(sets@);
                    let grown = before[j as int].insert(a);
                    lemma_grow_class(before, j as int, grown, after);
                    assert forall|x: ColSpec, y: ColSpec|
                        #[trigger] same_class(after, x, y) == related_after(before, a, b, x, y) by {
                        lemma_related_to_member(before, j as int, b, x);
                        lemma_related_to_member(before, j as int, b, y);
                        lemma_unrelated_to_stranger(before, a, x);
                        lemma_unrelated_to_stranger(before, a, y);
                    }
                }
            },
            None => {
                let mut fresh: Vec<ColRef> = Vec::new();
                fresh.push(c1.clone());
                if !(c1 == c2) {
                    fresh.push(c2.clone());
                }
                let ghost fresh_cols = cols_model(fresh@);
                sets.push(fresh);
                proof {
                    let after = classes_of(sets@);
                    let pair = Set::<ColSpec>::empty().insert(a).insert(b);
                    assert(fresh_cols.to_set() =~= pair) by {
                        assert(fresh_cols[0] == a);
                        if a != b {
                            assert(fresh_cols[1] == b);
                        }
                    }
                    assert(after =~~= before.push(pair));
                    lemma_push_class(before, pair, after);
                    assert forall|x: ColSpec, y: ColSpec|
                        #[trigger] same_class(after, x, y) == related_after(before, a, b, x, y) by {
                        lemma_unrelated_to_stranger(before, a, x);
                        lemma_unrelated_to_stranger(before, a, y);
                        lemma_unrelated_to_stranger(before, b, x);
                        lemma_unrelated_to_stranger(before, b, y);
                    }
                }
            },
        },
    }
}

impl View for EqualityFactSet {
    type V = Seq<Set<ColSpec>>;

    closed spec fn view(&self) -> Seq<Set<ColSpec>> {
        classes_of(self.sets@)
    }
}

impl EqualityFactSet {
    #[verifier::type_invariant]
    spec fn disjoint(&self) -> bool {
        pairwise_disjoint(classes_of(self.sets@))
    }

    /// The two columns are known to be equal: one class holds both.
    pub open spec fn related(&self, a: ColSpec, b: ColSpec) -> bool {
        same_class(self@, a, b)
    }

    /// The relation that holds of the pairs of columns known to be equal.
    pub open spec fn relation(&self) -> spec_fn(ColSpec, ColSpec) -> bool {
        |a: ColSpec, b: ColSpec| self.related(a, b)
    }

    /// `x` is one of `a` and `b`, or known to be equal to one of them.
    pub open spec fn touches(&self, x: ColSpec, a: ColSpec, b: ColSpec) -> bool {
        x == a || x == b || self.related(x, a) || self.related(x, b)
    }

    /// A set of facts that knows no equality.
    pub fn new() -> (res: EqualityFactSet)
        ensures
            res@.len() == 0,
            pairwise_disjoint(res@),
            forall|a: ColSpec, b: ColSpec| !res.related(a, b),
    {
        EqualityFactSet { sets: Vec::new() }
    }

    /// Whether the two columns are known to be equal.
    pub fn are_equal(&self, c1: &ColRef, c2: &ColRef) -> (res: bool)
        ensures
            res == self.related(c1@, c2@),
    {
        let mut i: usize = 0;
        while i < self.sets.len()
            invariant
                i <= self.sets.len(),
                forall|j: int|
                    0 <= j < i ==> !(#[trigger] classes_of(self.sets@)[j].contains(c1@)
                        && classes_of(self.sets@)[j].contains(c2@)),
            decreases self.sets.len() - i,
        {
            if cols_contain(self.sets[i].as_slice(), c1) && cols_contain(self.sets[i].as_slice(), c2) {
                assert(classes_of(self.sets@)[i as int].contains(c1@));
                return true;
            }
            i += 1;
        }
        false
    }

    /// Records that `c1` and `c2` are equal: merges their classes, adds the one
    /// to the class of the other, or starts a class of the two. Afterwards two
    /// columns are known to be equal when they were before, or when each of them
    /// is `c1` or `c2` or was known to be equal to one of the two.
    pub fn insert_rule(&mut self, c1: &ColRef, c2: &ColRef)
        ensures
            pairwise_disjoint(final(self)@),
            final(self)@ == classes_after(old(self)@, c1@, c2@),
            forall|x: ColSpec, y: ColSpec|
                #[trigger] final(self).related(x, y) == (old(self).related(x, y) || (old(
                    self,
                ).touches(x, c1@, c2@) && old(self).touches(y, c1@, c2@))),
    {
        let mut taken = EqualityFactSet { sets: Vec::new() };
        core::mem::swap(self, &mut taken);
        proof {
            use_type_invariant(&taken);
        }
        let mut sets = taken.sets;
        record_equality(&mut sets, c1, c2);
        *self = EqualityFactSet { sets };
    }
}

} // verus!
