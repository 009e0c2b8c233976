use vstd::prelude::*;

use crate::float::FloatType;

verus! {

/// Sorted and unique list of roots of an equation.
///
/// A real polynomial of degree at most four has at most four real roots,
/// so the capacity is fixed at four and no heap allocation is needed.
#[derive(Debug, PartialEq)]
pub enum Roots<F: FloatType> {
    /// Equation has no roots
    No([F; 0]),
    /// Equation has one root (or all roots of the equation are the same)
    One([F; 1]),
    /// Equation has two roots
    Two([F; 2]),
    /// Equation has three roots
    Three([F; 3]),
    /// Equation has four roots
    Four([F; 4]),
}

impl<F: FloatType> View for Roots<F> {
    type V = Seq<F>;

    open spec fn view(&self) -> Seq<F> {
        match *self {
            Roots::No(x) => x@,
            Roots::One(x) => x@,
            Roots::Two(x) => x@,
            Roots::Three(x) => x@,
            Roots::Four(x) => x@,
        }
    }
}

/// The elements are in strictly increasing order: the invariant of a fully
/// deduplicated list of roots.
pub open spec fn strictly_ascending<F: FloatType>(s: Seq<F>) -> bool {
    forall|i: int, j: int|
        #![trigger s[i].key(), s[j].key()]
        0 <= i < j < s.len() ==> s[i].key() < s[j].key()
}

/// The elements are in non-decreasing order.
pub open spec fn ascending<F: FloatType>(s: Seq<F>) -> bool {
    forall|i: int, j: int|
        #![trigger s[i].key(), s[j].key()]
        0 <= i < j < s.len() ==> s[i].key() <= s[j].key()
}

/// What adding one root to a list of roots yields: the new root is placed
/// before the first element above it, and is dropped when an element with
/// the same numerical value is met first.
pub open spec fn insert_root<F: FloatType>(s: Seq<F>, x: F) -> Seq<F>
    decreases s.len(),
{
    if s.len() == 0 {
        seq![x]
    } else if s[0].key() == x.key() {
        s
    } else if x.key() < s[0].key() {
        seq![x] + s
    } else {
        seq![s[0]] + insert_root(s.drop_first(), x)
    }
}

/// Inserting a root grows the list by at most one element and never
/// shrinks it.
pub proof fn lemma_insert_root_len<F: FloatType>(s: Seq<F>, x: F)
    ensures
        s.len() <= insert_root(s, x).len() <= s.len() + 1,
        insert_root(s, x).len() >= 1,
    decreases s.len(),
{
    if s.len() == 0 {
    } else if s[0].key() == x.key() {
    } else if x.key() < s[0].key() {
    } else {
        lemma_insert_root_len(s.drop_first(), x);
    }
}

/// Every element of the grown list is the new root or one of the old
/// elements.
pub proof fn lemma_insert_root_elems<F: FloatType>(s: Seq<F>, x: F)
    ensures
        forall|j: int|
            0 <= j < insert_root(s, x).len() ==> (#[trigger] insert_root(s, x)[j] == x
                || s.contains(insert_root(s, x)[j])),
    decreases s.len(),
{
    if s.len() == 0 {
    } else if s[0].key() == x.key() {
        assert forall|j: int| 0 <= j < insert_root(s, x).len() implies (#[trigger] insert_root(
            s,
            x,
        )[j] == x || s.contains(insert_root(s, x)[j])) by {
            assert(insert_root(s, x)[j] == s[j]);
        }
    } else if x.key() < s[0].key() {
        assert forall|j: int| 0 <= j < insert_root(s, x).len() implies (#[trigger] insert_root(
            s,
            x,
        )[j] == x || s.contains(insert_root(s, x)[j])) by {
            if j > 0 {
                assert(insert_root(s, x)[j] == s[j - 1]);
            }
        }
    } else {
        let t = s.drop_first();
        lemma_insert_root_elems(t, x);
        assert forall|j: int| 0 <= j < insert_root(s, x).len() implies (#[trigger] insert_root(
            s,
            x,
        )[j] == x || s.contains(insert_root(s, x)[j])) by {
            if j == 0 {
                assert(insert_root(s, x)[0] == s[0]);
            } else {
                assert(insert_root(s, x)[j] == insert_root(t, x)[j - 1]);
                if insert_root(t, x)[j - 1] != x {
                    let k = choose|k: int| 0 <= k < t.len() && t[k] == insert_root(t, x)[j - 1];
                    assert(s[k + 1] == t[k]);
                }
            }
        }
    }
}

/// Inserting into a strictly ascending list keeps it strictly ascending:
/// the mechanism by which every solver's result stays sorted and free of
/// duplicates.
pub proof fn lemma_insert_root_strictly_ascending<F: FloatType>(s: Seq<F>, x: F)
    requires
        strictly_ascending(s),
    ensures
        strictly_ascending(insert_root(s, x)),
    decreases s.len(),
{
    if s.len() == 0 {
    } else if s[0].key() == x.key() {
    } else if x.key() < s[0].key() {
    } else {
        let t = s.drop_first();
        assert(forall|i: int| 0 <= i < t.len() ==> t[i] == s[i + 1]);
        lemma_insert_root_strictly_ascending(t, x);
        lemma_insert_root_elems(t, x);
        let r = insert_root(s, x);
        assert forall|i: int, j: int|
            #![trigger r[i].key(), r[j].key()]
            0 <= i < j < r.len() implies r[i].key() < r[j].key() by {
            if i == 0 {
                assert(r[j] == insert_root(t, x)[j - 1]);
                if insert_root(t, x)[j - 1] == x {
                    assert(s[0].key() < x.key());
                } else {
                    let k = choose|k: int|
                        0 <= k < t.len() && t[k] == insert_root(t, x)[j - 1];
                    assert(s[0].key() < s[k + 1].key());
                }
            } else {
                assert(r[i] == insert_root(t, x)[i - 1]);
                assert(r[j] == insert_root(t, x)[j - 1]);
            }
        }
    }
}

/// Inserting into a non-decreasing list keeps it non-decreasing.
pub proof fn lemma_insert_root_ascending<F: FloatType>(s: Seq<F>, x: F)
    requires
        ascending(s),
    ensures
        ascending(insert_root(s, x)),
    decreases s.len(),
{
    if s.len() == 0 {
    } else if s[0].key() == x.key() {
    } else if x.key() < s[0].key() {
    } else {
        let t = s.drop_first();
        assert(forall|i: int| 0 <= i < t.len() ==> t[i] == s[i + 1]);
        lemma_insert_root_ascending(t, x);
        lemma_insert_root_elems(t, x);
        let r = insert_root(s, x);
        assert forall|i: int, j: int|
            #![trigger r[i].key(), r[j].key()]
            0 <= i < j < r.len() implies r[i].key() <= r[j].key() by {
            if i == 0 {
                assert(r[j] == insert_root(t, x)[j - 1]);
                if insert_root(t, x)[j - 1] == x {
                    assert(s[0].key() < x.key());
                } else {
                    let k = choose|k: int|
                        0 <= k < t.len() && t[k] == insert_root(t, x)[j - 1];
                    assert(s[0].key() <= s[k + 1].key());
                }
            } else {
                assert(r[i] == insert_root(t, x)[i - 1]);
                assert(r[j] == insert_root(t, x)[j - 1]);
            }
        }
    }
}

/// What adding every root of `xs`, from the first to the last, to `acc`
/// yields.
pub open spec fn insert_all<F: FloatType>(xs: Seq<F>, acc: Seq<F>) -> Seq<F>
    decreases xs.len(),
{
    if xs.len() == 0 {
        acc
    } else {
        insert_all(xs.drop_first(), insert_root(acc, xs[0]))
    }
}

/// A strictly increasing list is in particular non-decreasing.
pub proof fn lemma_strictly_ascending_implies_ascending<F: FloatType>(s: Seq<F>)
    requires
        strictly_ascending(s),
    ensures
        ascending(s),
{
}

/// A list of roots in non-decreasing order whose elements are pairwise
/// distinct numbers is strictly increasing: together with the ordering
/// that every solver promises of its result, this gives the strict order
/// of any returned list without coinciding values.
pub proof fn lemma_ascending_distinct_is_strictly_ascending<F: FloatType>(s: Seq<F>)
    requires
        ascending(s),
        forall|i: int, j: int|
            #![trigger s[i].key(), s[j].key()]
            0 <= i < j < s.len() ==> s[i].key() != s[j].key(),
    ensures
        strictly_ascending(s),
{
}

/// A root that is already present, and is met before any larger element,
/// leaves the list unchanged.
proof fn lemma_insert_root_scan_dup<F: FloatType>(s: Seq<F>, x: F, pos: int)
    requires
        0 <= pos < s.len(),
        forall|j: int| 0 <= j < pos ==> s[j].key() < x.key(),
        s[pos].key() == x.key(),
    ensures
        insert_root(s, x) == s,
    decreases pos,
{
    if pos == 0 {
    } else {
        let t = s.drop_first();
        assert(forall|i: int| 0 <= i < t.len() ==> t[i] == s[i + 1]);
        lemma_insert_root_scan_dup(t, x, pos - 1);
        assert(seq![s[0]] + t =~= s);
    }
}

/// A root that the scan places at `pos`, before any element above it and
/// behind the elements below it, is inserted exactly there.
proof fn lemma_insert_root_scan_new<F: FloatType>(s: Seq<F>, x: F, pos: int)
    requires
        0 <= pos <= s.len(),
        forall|j: int| 0 <= j < pos ==> s[j].key() < x.key(),
        pos < s.len() ==> x.key() < s[pos].key(),
    ensures
        insert_root(s, x) == s.subrange(0, pos) + seq![x] + s.subrange(pos, s.len() as int),
        insert_root(s, x).len() == s.len() + 1,
    decreases pos,
{
    if pos == 0 {
        if s.len() == 0 {
            assert(insert_root(s, x) =~= s.subrange(0, 0) + seq![x] + s.subrange(
                0,
                s.len() as int,
            ));
        } else {
            assert(seq![x] + s =~= s.subrange(0, 0) + seq![x] + s.subrange(0, s.len() as int));
        }
    } else {
        let t = s.drop_first();
        assert(forall|i: int| 0 <= i < t.len() ==> t[i] == s[i + 1]);
        lemma_insert_root_scan_new(t, x, pos - 1);
        assert(seq![s[0]] + (t.subrange(0, pos - 1) + seq![x] + t.subrange(pos - 1, t.len() as int))
            =~= s.subrange(0, pos) + seq![x] + s.subrange(pos, s.len() as int));
    }
}

impl<F: FloatType> Roots<F> {
    /// The number of roots in the list.
    pub fn len(&self) -> (n: usize)
        ensures
            n == self@.len(),
    {
        match self {
            Roots::No(_) => 0,
            Roots::One(_) => 1,
            Roots::Two(_) => 2,
            Roots::Three(_) => 3,
            Roots::Four(_) => 4,
        }
    }

    /// The root at position `i`, counted in ascending order.
    pub fn get(&self, i: usize) -> (r: F)
        requires
            i < self@.len(),
        ensures
            r == self@[i as int],
    {
        match self {
            Roots::No(x) => x[i],
            Roots::One(x) => x[i],
            Roots::Two(x) => x[i],
            Roots::Three(x) => x[i],
            Roots::Four(x) => x[i],
        }
    }

    /// Scans for `new_root`: reports whether an element of the same value
    /// is met before any larger element, and the position where the scan
    /// stopped.
    fn check_new_root(&self, new_root: F) -> (r: (bool, usize))
        ensures
            r.1 <= self@.len(),
            forall|j: int| 0 <= j < r.1 ==> self@[j].key() < new_root.key(),
            r.0 ==> r.1 < self@.len() && self@[r.1 as int].key() == new_root.key(),
            !r.0 && r.1 < self@.len() ==> new_root.key() < self@[r.1 as int].key(),
    {
        let n = self.len();
        let mut pos: usize = 0;
        let mut found = false;
        let mut i: usize = 0;
        while i < n
            invariant_except_break
                i <= n,
                n == self@.len(),
                pos == i,
                !found,
                forall|j: int| 0 <= j < i ==> self@[j].key() < new_root.key(),
            ensures
                pos <= n,
                n == self@.len(),
                forall|j: int| 0 <= j < pos ==> self@[j].key() < new_root.key(),
                found ==> pos < n && self@[pos as int].key() == new_root.key(),
                !found && pos < n ==> new_root.key() < self@[pos as int].key(),
            decreases n - i,
        {
            let x = self.get(i);
            if x.eq_val(new_root) {
                found = true;
                break;
            }
            if x.gt(new_root) {
                break;
            }
            pos = pos + 1;
            i = i + 1;
        }
        (found, pos)
    }

    /// Add a new root to existing ones keeping the list of roots ordered
    /// and unique. Making the list grow beyond four elements is a contract
    /// violation.
    pub fn add_new_root(self, new_root: F) -> (r: Self)
        requires
            insert_root(self@, new_root).len() <= 4,
        ensures
            r@ == insert_root(self@, new_root),
    {
        match self {
            Roots::No(_) => Roots::One([new_root]),
            _ => {
                let ghost s = self@;
                let (found, pos) = self.check_new_root(new_root);
                if found {
                    proof {
                        lemma_insert_root_scan_dup(s, new_root, pos as int);
                    }
                    self
                } else {
                    proof {
                        lemma_insert_root_scan_new(s, new_root, pos as int);
                    }
                    match (self, pos) {
                        (Roots::One(a), 0) => Roots::Two([new_root, a[0]]),
                        (Roots::One(a), 1) => Roots::Two([a[0], new_root]),
                        (Roots::Two(a), 0) => Roots::Three([new_root, a[0], a[1]]),
                        (Roots::Two(a), 1) => Roots::Three([a[0], new_root, a[1]]),
                        (Roots::Two(a), 2) => Roots::Three([a[0], a[1], new_root]),
                        (Roots::Three(a), 0) => Roots::Four([new_root, a[0], a[1], a[2]]),
                        (Roots::Three(a), 1) => Roots::Four([a[0], new_root, a[1], a[2]]),
                        (Roots::Three(a), 2) => Roots::Four([a[0], a[1], new_root, a[2]]),
                        (Roots::Three(a), 3) => Roots::Four([a[0], a[1], a[2], new_root]),
                        _ => {
                            proof {
                                assert(false);
                            }
                            vstd::pervasive::unreached()
                        },
                    }
                }
            }
        }
    }
}

} // verus!
