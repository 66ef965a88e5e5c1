//! The vowel nucleus of the current word and tone-mark placement.
//!
//! The nucleus is the last maximal run of vowel slots.  A tone mark lands on
//! one slot of it, chosen by a fixed pattern table: a shaped vowel wins, a
//! three-vowel nucleus marks its middle, a closed two-vowel nucleus marks its
//! second vowel, and an open two-vowel nucleus follows the orthography
//! convention (modern moves the mark to the second vowel for `oa` `oe` `uy`).

use vstd::prelude::*;
use crate::keys;
use crate::slot::{Slot, is_vowel_slot};

verus! {

/// Index of the last vowel slot, `-1` if there is none.
pub open spec fn last_vowel_idx(slots: Seq<Slot>) -> int
    decreases slots.len(),
{
    if slots.len() == 0 {
        -1
    } else if is_vowel_slot(slots.last()) {
        slots.len() - 1
    } else {
        last_vowel_idx(slots.drop_last())
    }
}

/// Start of the maximal vowel run that ends at `j` (inclusive).
pub open spec fn run_start(slots: Seq<Slot>, j: int) -> int
    decreases j,
{
    if j <= 0 {
        0
    } else if is_vowel_slot(slots[j - 1]) {
        run_start(slots, j - 1)
    } else {
        j
    }
}

/// Index of the vowel slot directly before the vowel at `j` in typing order
/// (not necessarily adjacent), `-1` if there is none.
pub open spec fn prev_vowel_idx(slots: Seq<Slot>, j: int) -> int {
    last_vowel_idx(slots.take(j))
}

/// Index of the last shaped (modifier-carrying) slot in `[start, end)`,
/// `-1` if none is shaped.
pub open spec fn last_modified_in(slots: Seq<Slot>, start: int, end: int) -> int
    decreases end - start,
{
    if end <= start {
        -1
    } else if slots[end - 1].modifier != 0 {
        end - 1
    } else {
        last_modified_in(slots, start, end - 1)
    }
}

/// The base keys of the slots in `[start, end)`.
pub open spec fn bases_of(slots: Seq<Slot>, start: int, end: int) -> Seq<u16> {
    slots.subrange(start, end).map_values(|s: Slot| s.base)
}

/// Open two-vowel patterns whose mark sits on the second vowel under the
/// modern convention (and on the first under the classic one).
pub open spec fn pair_marks_second(b0: u16, b1: u16) -> bool {
    (b0 == keys::O && b1 == keys::A) || (b0 == keys::O && b1 == keys::E) || (b0 == keys::U && b1
        == keys::Y)
}

/// Two-vowel nuclei of Vietnamese, by base letters.  Doubled identical
/// vowels are not nuclei: they are circumflex precursors.
pub open spec fn valid_pair(b0: u16, b1: u16) -> bool {
    ||| (b0 == keys::A && (b1 == keys::I || b1 == keys::O || b1 == keys::U || b1 == keys::Y))
    ||| (b0 == keys::E && (b1 == keys::O || b1 == keys::U))
    ||| (b0 == keys::I && (b1 == keys::A || b1 == keys::E || b1 == keys::U))
    ||| (b0 == keys::O && (b1 == keys::A || b1 == keys::E || b1 == keys::I))
    ||| (b0 == keys::U && (b1 == keys::A || b1 == keys::E || b1 == keys::I || b1 == keys::O || b1
        == keys::Y))
    ||| (b0 == keys::Y && b1 == keys::E)
}

/// Three-vowel nuclei of Vietnamese, by base letters.
pub open spec fn valid_triple(b0: u16, b1: u16, b2: u16) -> bool {
    ||| (b0 == keys::I && b1 == keys::E && b2 == keys::U)
    ||| (b0 == keys::Y && b1 == keys::E && b2 == keys::U)
    ||| (b0 == keys::O && b1 == keys::A && (b2 == keys::I || b2 == keys::Y))
    ||| (b0 == keys::O && b1 == keys::E && b2 == keys::O)
    ||| (b0 == keys::U && b1 == keys::A && b2 == keys::Y)
    ||| (b0 == keys::U && b1 == keys::O && (b2 == keys::I || b2 == keys::U))
    ||| (b0 == keys::U && b1 == keys::Y && (b2 == keys::A || b2 == keys::E || b2 == keys::U))
}

/// A valid nucleus shape, one to three base vowels.
pub open spec fn valid_nucleus(b: Seq<u16>) -> bool {
    if b.len() == 1 {
        keys::is_vowel(b[0])
    } else if b.len() == 2 {
        valid_pair(b[0], b[1])
    } else if b.len() == 3 {
        valid_triple(b[0], b[1], b[2])
    } else {
        false
    }
}

/// The slot of the nucleus `[start, end)` that carries the tone mark.
///
/// A shaped vowel attracts the mark (the last one when several are shaped);
/// otherwise a triple marks its middle, a closed pair its second vowel, and
/// an open pair its first unless the modern convention moves it.
pub open spec fn mark_index(
    slots: Seq<Slot>,
    start: int,
    end: int,
    closed: bool,
    modern: bool,
) -> int {
    let lm = last_modified_in(slots, start, end);
    if lm >= 0 {
        lm
    } else if end - start >= 3 {
        start + 1
    } else if end - start == 2 {
        if slots[start].base == slots[start + 1].base {
            start
        } else if closed {
            start + 1
        } else if modern && pair_marks_second(slots[start].base, slots[start + 1].base) {
            start + 1
        } else {
            start
        }
    } else {
        start
    }
}

/// `last_vowel_idx` stays in range and finds a vowel; every later slot is a
/// consonant.
pub proof fn lemma_last_vowel_idx(slots: Seq<Slot>)
    ensures
        -1 <= last_vowel_idx(slots) < slots.len(),
        last_vowel_idx(slots) >= 0 ==> is_vowel_slot(slots[last_vowel_idx(slots)]),
        forall|k: int|
            last_vowel_idx(slots) < k < slots.len() ==> !is_vowel_slot(#[trigger] slots[k]),
    decreases slots.len(),
{
    if slots.len() > 0 && !is_vowel_slot(slots.last()) {
        lemma_last_vowel_idx(slots.drop_last());
        assert(forall|k: int|
            0 <= k < slots.len() - 1 ==> slots.drop_last()[k] == #[trigger] slots[k]);
    }
}

/// `run_start` stays in range; the run it delimits is all vowels, and the
/// slot before it (if any) is a consonant.
pub proof fn lemma_run_start(slots: Seq<Slot>, j: int)
    requires
        0 <= j < slots.len(),
        is_vowel_slot(slots[j]),
    ensures
        0 <= run_start(slots, j) <= j,
        forall|k: int| run_start(slots, j) <= k <= j ==> is_vowel_slot(#[trigger] slots[k]),
        run_start(slots, j) > 0 ==> !is_vowel_slot(slots[run_start(slots, j) - 1]),
    decreases j,
{
    if j > 0 && is_vowel_slot(slots[j - 1]) {
        lemma_run_start(slots, j - 1);
    }
}

/// `last_modified_in` stays in range and finds a shaped slot; every later
/// slot of the range is unshaped.
pub proof fn lemma_last_modified_in(slots: Seq<Slot>, start: int, end: int)
    requires
        0 <= start,
        end <= slots.len(),
    ensures
        last_modified_in(slots, start, end) == -1 || start <= last_modified_in(slots, start, end)
            < end,
        last_modified_in(slots, start, end) >= 0 ==> slots[last_modified_in(
            slots,
            start,
            end,
        )].modifier != 0,
        forall|k: int|
            last_modified_in(slots, start, end) < k < end && start <= k ==> (#[trigger] slots[k]).modifier
                == 0,
    decreases end - start,
{
    if end > start && slots[end - 1].modifier == 0 {
        lemma_last_modified_in(slots, start, end - 1);
    }
}

/// The chosen mark slot lies inside the nucleus.
pub proof fn lemma_mark_index_in_range(
    slots: Seq<Slot>,
    start: int,
    end: int,
    closed: bool,
    modern: bool,
)
    requires
        0 <= start < end,
        end <= slots.len(),
    ensures
        start <= mark_index(slots, start, end, closed, modern) < end,
{
    lemma_last_modified_in(slots, start, end);
}

/// Executable twin of [`last_vowel_idx`], with the found index returned as
/// `None` or `Some`.
#[verifier::loop_isolation(false)]
pub fn find_last_vowel(slots: &Vec<Slot>) -> (r: Option<usize>)
    ensures
        match r {
            Some(j) => j == last_vowel_idx(slots@),
            None => last_vowel_idx(slots@) == -1,
        },
{
    let mut i: usize = slots.len();
    assert(slots@.take(i as int) =~= slots@);
    while i > 0
        invariant
            i <= slots@.len(),
            last_vowel_idx(slots@) == last_vowel_idx(slots@.take(i as int)),
        decreases i,
    {
        i = i - 1;
        if keys::vowel(slots[i].base) {
            assert(slots@.take(i + 1 as int).last() == slots@[i as int]);
            return Some(i);
        }
        assert(slots@.take(i + 1 as int).drop_last() =~= slots@.take(i as int));
    }
    None
}

/// Executable twin of [`prev_vowel_idx`]: the last vowel strictly before
/// `j`.
#[verifier::loop_isolation(false)]
pub fn find_prev_vowel(slots: &Vec<Slot>, j: usize) -> (r: Option<usize>)
    requires
        j <= slots@.len(),
    ensures
        match r {
            Some(p) => p == prev_vowel_idx(slots@, j as int),
            None => prev_vowel_idx(slots@, j as int) == -1,
        },
{
    let ghost pre = slots@.take(j as int);
    let mut i: usize = j;
    assert(pre.take(i as int) =~= pre);
    while i > 0
        invariant
            i <= j,
            last_vowel_idx(pre) == last_vowel_idx(pre.take(i as int)),
        decreases i,
    {
        i = i - 1;
        if keys::vowel(slots[i].base) {
            assert(pre.take(i + 1 as int).last() == pre[i as int]);
            return Some(i);
        }
        assert(pre.take(i + 1 as int).drop_last() =~= pre.take(i as int));
    }
    None
}

/// Executable twin of [`run_start`].
#[verifier::loop_isolation(false)]
pub fn find_run_start(slots: &Vec<Slot>, j: usize) -> (r: usize)
    requires
        j < slots@.len(),
        is_vowel_slot(slots@[j as int]),
    ensures
        r == run_start(slots@, j as int),
{
    let mut i: usize = j;
    while i > 0 && keys::vowel(slots[i - 1].base)
        invariant
            i <= j,
            run_start(slots@, j as int) == run_start(slots@, i as int),
        decreases i,
    {
        i = i - 1;
    }
    i
}

/// Executable twin of [`last_modified_in`], returned as an `Option`.
#[verifier::loop_isolation(false)]
pub fn find_last_modified(slots: &Vec<Slot>, start: usize, end: usize) -> (r: Option<usize>)
    requires
        end <= slots@.len(),
    ensures
        match r {
            Some(j) => j == last_modified_in(slots@, start as int, end as int),
            None => last_modified_in(slots@, start as int, end as int) == -1,
        },
{
    let mut i: usize = end;
    while i > start
        invariant
            i <= end,
            last_modified_in(slots@, start as int, end as int) == last_modified_in(
                slots@,
                start as int,
                i as int,
            ),
        decreases i,
    {
        i = i - 1;
        if slots[i].modifier != 0 {
            return Some(i);
        }
    }
    None
}

/// Executable twin of [`valid_nucleus`] over the bases of `[start, end)`
/// extended with one more base.
#[verifier::loop_isolation(false)]
pub fn valid_nucleus_extended(slots: &Vec<Slot>, start: usize, end: usize, extra: u16) -> (r: bool)
    requires
        start <= end,
        end <= slots@.len(),
    ensures
        r == valid_nucleus(bases_of(slots@, start as int, end as int).push(extra)),
{
    let ghost b = bases_of(slots@, start as int, end as int).push(extra);
    let n = end - start;
    assert(b.len() == n + 1);
    if n == 0 {
        assert(b[0] == extra);
        keys::vowel(extra)
    } else if n == 1 {
        assert(b[0] == slots@[start as int].base && b[1] == extra);
        valid_pair_of(slots[start].base, extra)
    } else if n == 2 {
        assert(b[0] == slots@[start as int].base && b[1] == slots@[start as int + 1].base && b[2]
            == extra);
        valid_triple_of(slots[start].base, slots[start + 1].base, extra)
    } else {
        false
    }
}

/// Executable twin of [`valid_pair`].
pub fn valid_pair_of(b0: u16, b1: u16) -> (r: bool)
    ensures
        r == valid_pair(b0, b1),
{
    if b0 == keys::A {
        b1 == keys::I || b1 == keys::O || b1 == keys::U || b1 == keys::Y
    } else if b0 == keys::E {
        b1 == keys::O || b1 == keys::U
    } else if b0 == keys::I {
        b1 == keys::A || b1 == keys::E || b1 == keys::U
    } else if b0 == keys::O {
        b1 == keys::A || b1 == keys::E || b1 == keys::I
    } else if b0 == keys::U {
        b1 == keys::A || b1 == keys::E || b1 == keys::I || b1 == keys::O || b1 == keys::Y
    } else if b0 == keys::Y {
        b1 == keys::E
    } else {
        false
    }
}

/// Executable twin of [`valid_triple`].
pub fn valid_triple_of(b0: u16, b1: u16, b2: u16) -> (r: bool)
    ensures
        r == valid_triple(b0, b1, b2),
{
    if b0 == keys::I || b0 == keys::Y {
        b1 == keys::E && b2 == keys::U
    } else if b0 == keys::O {
        (b1 == keys::A && (b2 == keys::I || b2 == keys::Y)) || (b1 == keys::E && b2 == keys::O)
    } else if b0 == keys::U {
        (b1 == keys::A && b2 == keys::Y) || (b1 == keys::O && (b2 == keys::I || b2 == keys::U)) || (
        b1 == keys::Y && (b2 == keys::A || b2 == keys::E || b2 == keys::U))
    } else {
        false
    }
}

/// Executable twin of [`mark_index`].
pub fn mark_index_of(slots: &Vec<Slot>, start: usize, end: usize, closed: bool, modern: bool) -> (r:
    usize)
    requires
        start < end,
        end <= slots@.len(),
    ensures
        r == mark_index(slots@, start as int, end as int, closed, modern),
        start <= r < end,
{
    proof {
        lemma_mark_index_in_range(slots@, start as int, end as int, closed, modern);
    }
    match find_last_modified(slots, start, end) {
        Some(j) => j,
        None => {
            if end - start >= 3 {
                start + 1
            } else if end - start == 2 {
                if slots[start].base == slots[start + 1].base {
                    start
                } else if closed {
                    start + 1
                } else if modern && pair_marks_second_of(slots[start].base, slots[start + 1].base) {
                    start + 1
                } else {
                    start
                }
            } else {
                start
            }
        },
    }
}

/// Executable twin of [`pair_marks_second`].
pub fn pair_marks_second_of(b0: u16, b1: u16) -> (r: bool)
    ensures
        r == pair_marks_second(b0, b1),
{
    (b0 == keys::O && b1 == keys::A) || (b0 == keys::O && b1 == keys::E) || (b0 == keys::U && b1
        == keys::Y)
}

} // verus!
