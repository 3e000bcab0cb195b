//! The rate-assigning periodic scheduler.
//!
//! A schedule is one major frame of `n` minor slots. Each slot is empty or
//! holds one task. A task of frequency `f` takes `f` slots that are spread
//! as evenly as the slots allow, rotated by a phase that keeps them clear
//! of every slot already taken.

use vstd::prelude::*;
use vstd::std_specs::cmp::PartialEqSpec;

verus! {

/// Length of the major frame in microseconds: one second.
pub const MAJOR_FRAME_US: u64 = 1_000_000;

/// The slot of the `i`-th occurrence of a task of frequency `f` in a frame
/// of `n` slots, before rotation: `i * n / f` rounded to the nearest
/// integer, halves upwards.
pub open spec fn pattern_slot(n: nat, f: nat, i: nat) -> nat {
    (2 * i * n + f) / (2 * f)
}

/// Whether the pattern of frequency `f` marks slot `p`.
pub open spec fn in_pattern(n: nat, f: nat, p: int) -> bool {
    exists|i: nat| i < f && #[trigger] pattern_slot(n, f, i) == p
}

/// Whether slot `j` takes the task when the pattern is rotated by `tau`.
pub open spec fn takes(n: nat, f: nat, tau: nat, j: int) -> bool {
    in_pattern(n, f, (j - tau) % (n as int))
}

/// The slot on which the `i`-th occurrence lands under phase `tau`.
pub open spec fn target(n: nat, f: nat, tau: nat, i: nat) -> int {
    ((pattern_slot(n, f, i) + tau) % n) as int
}

/// The number of the first `upto` occurrences that land on a taken slot
/// under phase `tau`.
pub open spec fn collision<T>(slots: Seq<Option<T>>, f: nat, tau: nat, upto: nat) -> nat
    decreases upto,
{
    if upto == 0 {
        0
    } else {
        collision(slots, f, tau, (upto - 1) as nat) + if slots[target(
            slots.len(),
            f,
            tau,
            (upto - 1) as nat,
        )] is Some {
            1nat
        } else {
            0nat
        }
    }
}

/// Whether a task of frequency `f` fits under phase `tau`: there are
/// enough slots for `f` distinct occurrences and none lands on a taken slot.
pub open spec fn fits<T>(slots: Seq<Option<T>>, f: nat, tau: nat) -> bool {
    &&& f <= slots.len()
    &&& collision(slots, f, tau, f) == 0
}

/// The least phase from `from` on under which the task fits, if any.
pub open spec fn first_fit<T>(slots: Seq<Option<T>>, f: nat, from: nat) -> Option<nat>
    decreases slots.len() - from,
{
    if from >= slots.len() {
        None
    } else if fits(slots, f, from) {
        Some(from)
    } else {
        first_fit(slots, f, from + 1)
    }
}

/// The slots after the task was written to every slot that takes it.
pub open spec fn placed<T>(slots: Seq<Option<T>>, f: nat, tau: nat, task: T) -> Seq<Option<T>> {
    Seq::new(
        slots.len(),
        |j: int|
            if takes(slots.len(), f, tau, j) {
                Some(task)
            } else {
                slots[j]
            },
    )
}

/// The slots after every slot that holds the task was emptied.
pub open spec fn cleared<T>(slots: Seq<Option<T>>, task: T) -> Seq<Option<T>> {
    Seq::new(
        slots.len(),
        |j: int|
            if slots[j] == Some(task) {
                None
            } else {
                slots[j]
            },
    )
}

/// The number of slots that hold the task.
pub open spec fn count_of<T>(slots: Seq<Option<T>>, task: T) -> nat
    decreases slots.len(),
{
    if slots.len() == 0 {
        0
    } else {
        count_of(slots.drop_last(), task) + if slots.last() == Some(task) {
            1nat
        } else {
            0nat
        }
    }
}

/// Quotient and remainder: the quotient is the only `q` with
/// `d * q <= a < d * q + d`.
proof fn lemma_quotient(a: int, d: int)
    by (nonlinear_arith)
    requires
        d > 0,
    ensures
        d * (a / d) <= a < d * (a / d) + d,
{
}

/// A number between `d * q` and `d * q + d` has quotient `q`.
proof fn lemma_quotient_is(a: int, d: int, q: int)
    by (nonlinear_arith)
    requires
        d > 0,
        d * q <= a < d * q + d,
    ensures
        a / d == q,
{
}

/// Adding `c` to the dividend raises the quotient by the quotient of `c`,
/// or by one more.
proof fn lemma_quotient_step(a: int, c: int, d: int)
    requires
        d > 0,
    ensures
        a / d + c / d <= (a + c) / d <= a / d + c / d + 1,
{
    lemma_quotient(a, d);
    lemma_quotient(c, d);
    lemma_quotient(a + c, d);
    let qa = a / d;
    let qc = c / d;
    let qs = (a + c) / d;
    assert(qa + qc <= qs <= qa + qc + 1) by (nonlinear_arith)
        requires
            d > 0,
            d * qa <= a < d * qa + d,
            d * qc <= c < d * qc + d,
            d * qs <= a + c < d * qs + d,
    ;
}

/// Density, the spacing part. The occurrences of a task start at slot 0,
/// come back to the same place after `n` slots, and the distance from each
/// to the next is `n / f` or one more: no two gaps differ by more than one.
pub proof fn lemma_pattern_gaps(n: nat, f: nat, i: nat)
    requires
        1 <= f,
    ensures
        pattern_slot(n, f, 0) == 0,
        pattern_slot(n, f, f) == n,
        n / f <= pattern_slot(n, f, i + 1) - pattern_slot(n, f, i) <= n / f + 1,
{
    let d = 2 * f as int;
    assert(2 * 0 * n + f == f) by (nonlinear_arith);
    lemma_quotient_is(f as int, d, 0);
    assert(2 * f * n + f == d * n + f) by (nonlinear_arith)
        requires
            d == 2 * f,
    ;
    lemma_quotient_is(d * n + f, d, n as int);
    let a = 2 * i * n + f;
    assert(2 * (i + 1) * n + f == a + 2 * n) by (nonlinear_arith)
        requires
            a == 2 * i * n + f,
    ;
    lemma_quotient_step(a as int, 2 * n as int, d);
    lemma_quotient(n as int, f as int);
    let q = (n / f) as int;
    assert(d * q <= 2 * n < d * q + d) by (nonlinear_arith)
        requires
            d == 2 * f,
            f * q <= n < f * q + f,
    ;
    lemma_quotient_is(2 * n as int, d, q);
}

/// Where there are at least as many slots as occurrences, later occurrences
/// fall on later slots.
pub proof fn lemma_pattern_increasing(n: nat, f: nat, i: nat, k: nat)
    requires
        1 <= f <= n,
        i < k,
    ensures
        pattern_slot(n, f, i) < pattern_slot(n, f, k),
    decreases k - i,
{
    lemma_pattern_gaps(n, f, (k - 1) as nat);
    lemma_quotient(n as int, f as int);
    assert(n / f >= 1) by (nonlinear_arith)
        requires
            f >= 1,
            f <= n,
            f * (n / f) <= n < f * (n / f) + f,
    ;
    if i + 1 < k {
        lemma_pattern_increasing(n, f, i, (k - 1) as nat);
    }
}

/// Where there are at least as many slots as occurrences, every occurrence
/// falls inside the frame.
pub proof fn lemma_pattern_in_frame(n: nat, f: nat, i: nat)
    requires
        1 <= f <= n,
        i < f,
    ensures
        pattern_slot(n, f, i) < n,
{
    lemma_pattern_increasing(n, f, i, f);
    lemma_pattern_gaps(n, f, 0);
}

/// A rotated slot stays inside the frame, and rotation can be undone.
proof fn lemma_rotation(n: nat, tau: nat, p: nat, j: int)
    requires
        tau < n,
        p < n,
        0 <= j < n,
    ensures
        0 <= (p + tau) % n < n,
        (j - tau) % (n as int) == p <==> (p + tau) % n == j,
{
    if p + tau < n {
        vstd::arithmetic::div_mod::lemma_small_mod(p + tau, n);
    } else {
        vstd::arithmetic::div_mod::lemma_small_mod((p + tau - n) as nat, n);
        vstd::arithmetic::div_mod::lemma_mod_sub_multiples_vanish((p + tau) as int, n as int);
    }
    if j >= tau {
        vstd::arithmetic::div_mod::lemma_small_mod((j - tau) as nat, n);
    } else {
        vstd::arithmetic::div_mod::lemma_small_mod((j - tau + n) as nat, n);
        vstd::arithmetic::div_mod::lemma_mod_add_multiples_vanish(j - tau, n as int);
    }
}

/// Under any phase the occurrences of a task land inside the frame and on
/// distinct slots.
pub proof fn lemma_targets_distinct(n: nat, f: nat, tau: nat, i: nat, k: nat)
    requires
        1 <= f <= n,
        tau < n,
        i < k < f,
    ensures
        0 <= target(n, f, tau, i) < n,
        0 <= target(n, f, tau, k) < n,
        target(n, f, tau, i) != target(n, f, tau, k),
{
    lemma_pattern_in_frame(n, f, i);
    lemma_pattern_in_frame(n, f, k);
    lemma_pattern_increasing(n, f, i, k);
    let pi = pattern_slot(n, f, i);
    let pk = pattern_slot(n, f, k);
    lemma_rotation(n, tau, pi, target(n, f, tau, k));
    lemma_rotation(n, tau, pk, target(n, f, tau, k));
}

/// A slot takes the task exactly if one of the occurrences lands on it.
pub proof fn lemma_takes_is_target(n: nat, f: nat, tau: nat, j: int)
    requires
        1 <= f <= n,
        tau < n,
        0 <= j < n,
    ensures
        takes(n, f, tau, j) <==> exists|i: nat| i < f && #[trigger] target(n, f, tau, i) == j,
{
    if takes(n, f, tau, j) {
        let i = choose|i: nat| i < f && #[trigger] pattern_slot(n, f, i) == (j - tau) % (n as int);
        lemma_pattern_in_frame(n, f, i);
        lemma_rotation(n, tau, pattern_slot(n, f, i), j);
        assert(target(n, f, tau, i) == j);
    }
    if exists|i: nat| i < f && #[trigger] target(n, f, tau, i) == j {
        let i = choose|i: nat| i < f && #[trigger] target(n, f, tau, i) == j;
        lemma_pattern_in_frame(n, f, i);
        lemma_rotation(n, tau, pattern_slot(n, f, i), j);
        assert(pattern_slot(n, f, i) == (j - tau) % (n as int));
    }
}

/// No collision among the first `upto` occurrences means that each of them
/// lands on an empty slot.
pub proof fn lemma_collision_zero<T>(slots: Seq<Option<T>>, f: nat, tau: nat, upto: nat)
    ensures
        collision(slots, f, tau, upto) == 0 <==> forall|i: nat|
            i < upto ==> slots[#[trigger] target(slots.len(), f, tau, i)] is None,
    decreases upto,
{
    if upto > 0 {
        lemma_collision_zero(slots, f, tau, (upto - 1) as nat);
        if collision(slots, f, tau, upto) == 0 {
            assert forall|i: nat| i < upto implies slots[#[trigger] target(
                slots.len(),
                f,
                tau,
                i,
            )] is None by {
                if i < upto - 1 {
                } else {
                    assert(i == upto - 1);
                }
            }
        } else {
            if collision(slots, f, tau, (upto - 1) as nat) == 0 {
                assert(slots[target(slots.len(), f, tau, (upto - 1) as nat)] is Some);
            }
        }
    }
}

/// Writing one slot changes the count of a task by what left the slot and
/// what entered it.
pub proof fn lemma_count_update<T>(slots: Seq<Option<T>>, j: int, value: Option<T>, task: T)
    requires
        0 <= j < slots.len(),
    ensures
        count_of(slots.update(j, value), task) + (if slots[j] == Some(task) {
            1nat
        } else {
            0nat
        }) == count_of(slots, task) + (if value == Some(task) {
            1nat
        } else {
            0nat
        }),
    decreases slots.len(),
{
    let after = slots.update(j, value);
    if j == slots.len() - 1 {
        assert(after.drop_last() =~= slots.drop_last());
    } else {
        assert(after.drop_last() =~= slots.drop_last().update(j, value));
        lemma_count_update(slots.drop_last(), j, value, task);
    }
}

/// A task that no slot holds counts zero, and the other way round.
pub proof fn lemma_count_zero<T>(slots: Seq<Option<T>>, task: T)
    ensures
        count_of(slots, task) == 0 <==> forall|j: int|
            0 <= j < slots.len() ==> slots[j] != Some(task),
    decreases slots.len(),
{
    if slots.len() > 0 {
        lemma_count_zero(slots.drop_last(), task);
        if count_of(slots, task) == 0 {
            assert forall|j: int| 0 <= j < slots.len() implies slots[j] != Some(task) by {
                if j < slots.len() - 1 {
                    assert(slots.drop_last()[j] == slots[j]);
                }
            }
        } else {
            if count_of(slots.drop_last(), task) != 0 {
                let j = choose|j: int|
                    0 <= j < slots.drop_last().len() && slots.drop_last()[j] == Some(task);
                assert(slots[j] == Some(task));
            }
        }
    }
}

/// The slots after the first `k` occurrences were written one by one.
pub open spec fn placed_upto<T>(slots: Seq<Option<T>>, f: nat, tau: nat, task: T, k: nat) -> Seq<
    Option<T>,
>
    decreases k,
{
    if k == 0 {
        slots
    } else {
        placed_upto(slots, f, tau, task, (k - 1) as nat).update(
            target(slots.len(), f, tau, (k - 1) as nat),
            Some(task),
        )
    }
}

/// Writing the occurrences one by one: each write fills an empty slot, so
/// the count of the task grows by one per occurrence, no other task loses
/// or gains a slot, and no slot that was taken is touched.
pub proof fn lemma_placed_upto<T>(slots: Seq<Option<T>>, f: nat, tau: nat, task: T, k: nat)
    requires
        1 <= f,
        tau < slots.len(),
        fits(slots, f, tau),
        k <= f,
    ensures
        placed_upto(slots, f, tau, task, k).len() == slots.len(),
        forall|j: int|
            0 <= j < slots.len() ==> #[trigger] placed_upto(slots, f, tau, task, k)[j] == (if exists|
                i: nat,
            |
                i < k && #[trigger] target(slots.len(), f, tau, i) == j {
                Some(task)
            } else {
                slots[j]
            }),
        count_of(placed_upto(slots, f, tau, task, k), task) == count_of(slots, task) + k,
        forall|other: T|
            other != task ==> #[trigger] count_of(placed_upto(slots, f, tau, task, k), other)
                == count_of(slots, other),
    decreases k,
{
    let n = slots.len();
    if k > 0 {
        let last = (k - 1) as nat;
        let before = placed_upto(slots, f, tau, task, last);
        let after = placed_upto(slots, f, tau, task, k);
        let t = target(n, f, tau, last);
        lemma_placed_upto(slots, f, tau, task, last);
        lemma_collision_zero(slots, f, tau, f);
        lemma_pattern_in_frame(n, f, last);
        lemma_rotation(n, tau, pattern_slot(n, f, last), 0);
        assert(0 <= t < n);
        assert(slots[t] is None);
        assert(before[t] == slots[t]) by {
            if exists|i: nat| i < last && #[trigger] target(n, f, tau, i) == t {
                let i = choose|i: nat| i < last && #[trigger] target(n, f, tau, i) == t;
                lemma_targets_distinct(n, f, tau, i, last);
            }
        }
        assert forall|j: int| 0 <= j < n implies #[trigger] after[j] == (if exists|i: nat|
            i < k && #[trigger] target(n, f, tau, i) == j {
            Some(task)
        } else {
            slots[j]
        }) by {
            if j == t {
                assert(last < k && target(n, f, tau, last) == j);
            } else {
                assert(after[j] == before[j]);
                if exists|i: nat| i < last && #[trigger] target(n, f, tau, i) == j {
                    let i = choose|i: nat| i < last && #[trigger] target(n, f, tau, i) == j;
                    assert(i < k && target(n, f, tau, i) == j);
                } else {
                    if exists|i: nat| i < k && #[trigger] target(n, f, tau, i) == j {
                        let i = choose|i: nat| i < k && #[trigger] target(n, f, tau, i) == j;
                        assert(i < last);
                    }
                }
            }
        }
        lemma_count_update(before, t, Some(task), task);
        assert forall|other: T| other != task implies #[trigger] count_of(after, other)
            == count_of(slots, other) by {
            lemma_count_update(before, t, Some(task), other);
        }
    }
}

/// Density, the counting part, and disjointness. Placing a task under a
/// phase under which it fits gives it exactly `f` more slots, all of which
/// were empty; every other task keeps its slots.
pub proof fn lemma_placed<T>(slots: Seq<Option<T>>, f: nat, tau: nat, task: T)
    requires
        1 <= f,
        tau < slots.len(),
        fits(slots, f, tau),
    ensures
        placed(slots, f, tau, task) == placed_upto(slots, f, tau, task, f),
        count_of(placed(slots, f, tau, task), task) == count_of(slots, task) + f,
        forall|other: T|
            other != task ==> #[trigger] count_of(placed(slots, f, tau, task), other) == count_of(
                slots,
                other,
            ),
        forall|j: int|
            0 <= j < slots.len() && slots[j] is Some ==> #[trigger] placed(slots, f, tau, task)[j]
                == slots[j],
{
    let n = slots.len();
    lemma_placed_upto(slots, f, tau, task, f);
    lemma_collision_zero(slots, f, tau, f);
    assert forall|j: int| 0 <= j < n implies #[trigger] placed(slots, f, tau, task)[j]
        == placed_upto(slots, f, tau, task, f)[j] by {
        lemma_takes_is_target(n, f, tau, j);
    }
    assert(placed(slots, f, tau, task) =~= placed_upto(slots, f, tau, task, f));
    assert forall|j: int| 0 <= j < n && slots[j] is Some implies #[trigger] placed(
        slots,
        f,
        tau,
        task,
    )[j] == slots[j] by {
        if exists|i: nat| i < f && #[trigger] target(n, f, tau, i) == j {
            let i = choose|i: nat| i < f && #[trigger] target(n, f, tau, i) == j;
            assert(slots[target(n, f, tau, i)] is None);
        }
    }
}

/// The rendering of a row of slots, one character per slot.
pub open spec fn rendering<T>(slots: Seq<Option<T>>) -> Seq<char> {
    Seq::new(
        slots.len(),
        |j: int|
            if slots[j] is Some {
                '#'
            } else {
                '-'
            },
    )
}

/// Appends one character to a string with `String::push` of the standard
/// library. Trusted: the contract restates the documentation of `push`.
#[verifier::external_body]
fn push_char(text: &mut String, c: char)
    ensures
        final(text)@ == old(text)@.push(c),
{
    text.push(c);
}

/// Equality of tasks is equality of values: `==` in compiled code says
/// what `==` says in contracts.
pub open spec fn value_equal<T: PartialEq>() -> bool {
    &&& T::obeys_eq_spec()
    &&& forall|a: T, b: T| #[trigger] a.eq_spec(&b) <==> a == b
}

/// Why a task was not inserted.
#[derive(Clone, Copy, Debug, PartialEq, Eq, Structural)]
pub enum ScheduleError {
    /// Under every phase the task would land on a slot that is taken, or
    /// the task asks for more slots than the frame has.
    Conflict,
}

impl ScheduleError {
    /// The text that describes the error.
    pub open spec fn text(self) -> Seq<char> {
        "task does not fit current schedule"@
    }

    /// Describes the error in words.
    pub fn message(&self) -> (text: &'static str)
        ensures
            text@ == self.text(),
    {
        "task does not fit current schedule"
    }
}

/// A schedule as a value.
#[verifier::ext_equal]
pub struct ScheduleView<T> {
    /// The slots of the major frame, in order.
    pub slots: Seq<Option<T>>,
    /// The number of minor frames consumed so far.
    pub last_frame: nat,
    /// The clock reading, in microseconds, from which time is measured.
    pub time_zero: nat,
    /// The length of the major frame in microseconds.
    pub duration: nat,
}

impl<T> ScheduleView<T> {
    /// The minor frame that the clock reading `now` falls in, counted from
    /// `time_zero`. A reading before `time_zero` counts as `time_zero`.
    pub open spec fn current_frame(self, now: nat) -> nat {
        let elapsed = if now >= self.time_zero {
            (now - self.time_zero) as nat
        } else {
            0nat
        };
        elapsed * self.slots.len() / self.duration
    }

    /// What the slot of a minor frame holds: frame `g` falls on slot
    /// `g % n`.
    pub open spec fn at(self, frame: nat) -> Option<T> {
        self.slots[(frame % self.slots.len()) as int]
    }

    /// Walks the minor frames from `from` up to, not including, `to` and
    /// stops behind the first one whose slot holds a task: the frame at
    /// which the walk ends and the task found, if any.
    pub open spec fn scan(self, from: nat, to: nat) -> (nat, Option<T>)
        decreases to - from,
    {
        if from >= to {
            (from, None)
        } else if self.at(from) is Some {
            (from + 1, self.at(from))
        } else {
            self.scan(from + 1, to)
        }
    }

    /// The schedule and the task that `next` yields at clock reading `now`.
    pub open spec fn next(self, now: nat) -> (ScheduleView<T>, Option<T>) {
        let found = self.scan(self.last_frame, self.current_frame(now));
        (ScheduleView { last_frame: found.0, ..self }, found.1)
    }

    /// The schedule and the result that `insert` yields. Frequency zero
    /// removes the task. Otherwise the task is placed under the least phase
    /// under which it fits; if there is none, nothing changes.
    pub open spec fn insert(self, frequency: nat, task: T) -> (
        ScheduleView<T>,
        Result<(), ScheduleError>,
    ) {
        if frequency == 0 {
            (ScheduleView { slots: cleared(self.slots, task), ..self }, Ok(()))
        } else {
            match first_fit(self.slots, frequency, 0) {
                Some(tau) => (
                    ScheduleView { slots: placed(self.slots, frequency, tau, task), ..self },
                    Ok(()),
                ),
                None => (self, Err(ScheduleError::Conflict)),
            }
        }
    }
}

/// Computes the slot of the `i`-th occurrence.
fn slot_index(n: usize, f: usize, i: usize) -> (p: usize)
    requires
        1 <= f <= n <= u32::MAX,
        i < f,
    ensures
        p == pattern_slot(n as nat, f as nat, i as nat),
        p < n,
{
    proof {
        lemma_pattern_in_frame(n as nat, f as nat, i as nat);
        assert(2 * i * n + f <= 2 * 0xFFFF_FFFF * 0xFFFF_FFFF + 0xFFFF_FFFF) by (nonlinear_arith)
            requires
                i <= 0xFFFF_FFFF,
                n <= 0xFFFF_FFFF,
                f <= 0xFFFF_FFFF,
        ;
        assert(2 * (i as int) * (n as int) == 2 * i * n) by (nonlinear_arith);
    }
    let twice: u128 = 2 * (i as u128) * (n as u128);
    ((twice + f as u128) / (2 * (f as u128))) as usize
}

/// One major frame of minor slots, of which each may hold one task.
pub struct Schedule<T: Copy + PartialEq> {
    slots: Vec<Option<T>>,
    last_frame: u128,
    time_zero: u64,
    duration: u64,
}

impl<T: Copy + PartialEq> View for Schedule<T> {
    type V = ScheduleView<T>;

    closed spec fn view(&self) -> ScheduleView<T> {
        ScheduleView {
            slots: self.slots@,
            last_frame: self.last_frame as nat,
            time_zero: self.time_zero as nat,
            duration: self.duration as nat,
        }
    }
}

impl<T: Copy + PartialEq> Schedule<T> {
    #[verifier::type_invariant]
    spec fn inv(self) -> bool {
        &&& self.slots@.len() <= u32::MAX
        &&& self.duration > 0
        &&& self.last_frame <= u64::MAX * u32::MAX
    }

    /// A schedule of `size` empty slots over a major frame of one second,
    /// with no minor frame consumed and time measured from clock reading 0.
    pub fn new(size: usize) -> (schedule: Schedule<T>)
        requires
            size <= u32::MAX,
        ensures
            schedule@.slots.len() == size,
            forall|j: int| 0 <= j < size ==> schedule@.slots[j] is None,
            schedule@.last_frame == 0,
            schedule@.time_zero == 0,
            schedule@.duration == MAJOR_FRAME_US,
    {
        let mut slots: Vec<Option<T>> = Vec::new();
        let mut j: usize = 0;
        while j < size
            invariant
                j <= size,
                slots@.len() == j,
                forall|k: int| 0 <= k < j ==> slots@[k] is None,
            decreases size - j,
        {
            slots.push(None);
            j = j + 1;
        }
        Schedule { slots, last_frame: 0, time_zero: 0, duration: MAJOR_FRAME_US }
    }

    /// The number of slots.
    pub fn size(&self) -> (n: usize)
        ensures
            n == self@.slots.len(),
    {
        self.slots.len()
    }

    /// What a slot holds. A slot beyond the frame holds nothing.
    pub fn slot(&self, index: usize) -> (held: Option<T>)
        ensures
            index < self@.slots.len() ==> held == self@.slots[index as int],
            index >= self@.slots.len() ==> held is None,
    {
        if index < self.slots.len() {
            self.slots[index]
        } else {
            None
        }
    }

    /// Measures time from the clock reading `now` on and starts over at
    /// the first minor frame.
    pub fn restart(&mut self, now: u64)
        ensures
            final(self)@ == (ScheduleView { time_zero: now as nat, last_frame: 0, ..old(self)@ }),
    {
        proof {
            use_type_invariant(&*self);
        }
        self.time_zero = now;
        self.last_frame = 0;
    }

    /// Yields the next task that is due at clock reading `now`, in
    /// microseconds. The minor frames that the clock has passed since the
    /// last call are walked in order; the walk stops behind the first slot
    /// that holds a task. `None` means that nothing is due.
    pub fn next(&mut self, now: u64) -> (task: Option<T>)
        ensures
            (final(self)@, task) == old(self)@.next(now as nat),
    {
        proof {
            use_type_invariant(&*self);
        }
        let n = self.slots.len();
        let elapsed: u64 = if now >= self.time_zero {
            now - self.time_zero
        } else {
            0
        };
        assert(elapsed * n <= u64::MAX * u32::MAX) by (nonlinear_arith)
            requires
                elapsed <= u64::MAX,
                n <= u32::MAX,
        ;
        let product: u128 = (elapsed as u128) * (n as u128);
        let current: u128 = product / (self.duration as u128);
        proof {
            let d = self.duration as int;
            let whole = product as int;
            assert(whole / d <= whole) by (nonlinear_arith)
                requires
                    d >= 1,
                    whole >= 0,
            ;
            if n == 0 {
                assert(elapsed * n == 0) by (nonlinear_arith)
                    requires
                        n == 0,
                ;
            }
        }
        assert(current == old(self)@.current_frame(now as nat));
        let ghost start = self@;
        while self.last_frame < current
            invariant
                self@ == (ScheduleView { last_frame: self.last_frame as nat, ..start }),
                start == old(self)@,
                current == start.current_frame(now as nat),
                self.slots@.len() == n,
                n <= u32::MAX,
                self.duration > 0,
                current <= u64::MAX * u32::MAX,
                start.scan(start.last_frame, current as nat) == start.scan(
                    self.last_frame as nat,
                    current as nat,
                ),
                current > 0 ==> n > 0,
            decreases current - self.last_frame,
        {
            let ghost from = self.last_frame as nat;
            let index = (self.last_frame % (n as u128)) as usize;
            self.last_frame = self.last_frame + 1;
            match self.slots[index] {
                Some(task) => {
                    assert(start.at(from) == Some(task));
                    assert(start.scan(from, current as nat) == (from + 1, Some(task)));
                    return Some(task);
                },
                None => {
                    assert(start.at(from) is None);
                    assert(start.scan(from, current as nat) == start.scan(from + 1, current as nat));
                },
            }
        }
        None
    }

    /// Counts the slots that hold the task.
    pub fn count(&self, task: &T) -> (count: usize)
        requires
            value_equal::<T>(),
        ensures
            count == count_of(self@.slots, *task),
    {
        let mut count: usize = 0;
        let mut j: usize = 0;
        while j < self.slots.len()
            invariant
                value_equal::<T>(),
                j <= self.slots@.len(),
                count == count_of(self.slots@.take(j as int), *task),
                count <= j,
            decreases self.slots@.len() - j,
        {
            assert(self.slots@.take(j + 1).drop_last() =~= self.slots@.take(j as int));
            match self.slots[j] {
                Some(held) => {
                    if held == *task {
                        count = count + 1;
                    }
                },
                None => {},
            }
            j = j + 1;
        }
        assert(self.slots@.take(j as int) =~= self.slots@);
        count
    }

    /// Empties every slot that holds the task. A task that is not in the
    /// schedule leaves it unchanged.
    pub fn delete(&mut self, task: &T)
        requires
            value_equal::<T>(),
        ensures
            final(self)@ == (ScheduleView { slots: cleared(old(self)@.slots, *task), ..old(self)@ }),
    {
        proof {
            use_type_invariant(&*self);
        }
        let ghost start = self@;
        let mut slots: Vec<Option<T>> = Vec::new();
        core::mem::swap(&mut self.slots, &mut slots);
        let n = slots.len();
        let mut j: usize = 0;
        while j < n
            invariant
                value_equal::<T>(),
                j <= n,
                n == start.slots.len(),
                slots@.len() == n,
                forall|k: int| 0 <= k < j ==> slots@[k] == cleared(start.slots, *task)[k],
                forall|k: int| j <= k < n ==> slots@[k] == start.slots[k],
            decreases n - j,
        {
            let matches = match slots[j] {
                Some(held) => held == *task,
                None => false,
            };
            if matches {
                slots.set(j, None);
            }
            j = j + 1;
        }
        assert(slots@ =~= cleared(start.slots, *task));
        core::mem::swap(&mut self.slots, &mut slots);
    }

    /// Renders the schedule with one character per slot: `-` for an empty
    /// slot, `#` for a slot that holds a task.
    pub fn display(&self) -> (text: String)
        ensures
            text@ == rendering(self@.slots),
    {
        let mut text = String::new();
        let mut j: usize = 0;
        while j < self.slots.len()
            invariant
                j <= self.slots@.len(),
                text@ == rendering(self.slots@.take(j as int)),
            decreases self.slots@.len() - j,
        {
            let mark = if self.slots[j].is_some() {
                '#'
            } else {
                '-'
            };
            push_char(&mut text, mark);
            assert(text@ =~= rendering(self.slots@.take(j + 1)));
            j = j + 1;
        }
        assert(self.slots@.take(j as int) =~= self.slots@);
        text
    }

    /// Counts the occurrences of a task of frequency `f` that land on a
    /// taken slot under phase `tau`.
    fn collisions(&self, f: usize, tau: usize) -> (sum: usize)
        requires
            1 <= f <= self@.slots.len(),
            tau < self@.slots.len(),
        ensures
            sum == collision(self@.slots, f as nat, tau as nat, f as nat),
            sum <= f,
    {
        proof {
            use_type_invariant(self);
        }
        let n = self.slots.len();
        let mut sum: usize = 0;
        let mut i: usize = 0;
        while i < f
            invariant
                1 <= f <= n <= u32::MAX,
                n == self.slots@.len(),
                tau < n,
                i <= f,
                sum <= i,
                sum == collision(self.slots@, f as nat, tau as nat, i as nat),
            decreases f - i,
        {
            let p = slot_index(n, f, i);
            let j = ((p as u64 + tau as u64) % (n as u64)) as usize;
            if self.slots[j].is_some() {
                sum = sum + 1;
            }
            i = i + 1;
        }
        sum
    }

    /// Inserts a task at `frequency` occurrences per major frame. The
    /// occurrences are spread evenly and rotated by the least phase that
    /// keeps them clear of every taken slot. If no phase does, the schedule
    /// stays as it was and the result is `Conflict`. Frequency zero removes
    /// the task.
    pub fn insert(&mut self, frequency: u32, task: T) -> (result: Result<(), ScheduleError>)
        requires
            frequency == 0 ==> value_equal::<T>(),
        ensures
            (final(self)@, result) == old(self)@.insert(frequency as nat, task),
    {
        proof {
            use_type_invariant(&*self);
        }
        if frequency == 0 {
            self.delete(&task);
            return Ok(());
        }
        let ghost start = self@;
        let n = self.slots.len();
        let f = frequency as usize;
        if f > n {
            proof {
                lemma_never_fits(start.slots, f as nat, 0);
            }
            return Err(ScheduleError::Conflict);
        }
        let mut min: usize = usize::MAX;
        let mut tau: usize = 0;
        let mut phase: usize = 0;
        while phase < n
            invariant_except_break
                min > 0,
                first_fit(start.slots, f as nat, 0) == first_fit(start.slots, f as nat, phase as nat),
            invariant
                1 <= f <= n,
                n == start.slots.len(),
                self@ == start,
                phase <= n,
            ensures
                min == 0 ==> tau < n && first_fit(start.slots, f as nat, 0) == Some(tau as nat),
                min > 0 ==> first_fit(start.slots, f as nat, 0) is None,
            decreases n - phase,
        {
            let sum = self.collisions(f, phase);
            if sum < min {
                min = sum;
                tau = phase;
            }
            if sum == 0 {
                break ;
            }
            phase = phase + 1;
        }
        if min != 0 {
            return Err(ScheduleError::Conflict);
        }
        proof {
            lemma_first_fit(start.slots, f as nat, 0);
        }
        let mut slots: Vec<Option<T>> = Vec::new();
        core::mem::swap(&mut self.slots, &mut slots);
        let mut i: usize = 0;
        while i < f
            invariant
                1 <= f <= n <= u32::MAX,
                n == start.slots.len(),
                tau < n,
                fits(start.slots, f as nat, tau as nat),
                i <= f,
                slots@ == placed_upto(start.slots, f as nat, tau as nat, task, i as nat),
            decreases f - i,
        {
            proof {
                lemma_placed_upto(start.slots, f as nat, tau as nat, task, i as nat);
            }
            let p = slot_index(n, f, i);
            let j = ((p as u64 + tau as u64) % (n as u64)) as usize;
            slots.set(j, Some(task));
            i = i + 1;
        }
        proof {
            lemma_placed(start.slots, f as nat, tau as nat, task);
        }
        core::mem::swap(&mut self.slots, &mut slots);
        Ok(())
    }
}

/// The phase that `first_fit` finds lies inside the frame, the task fits
/// under it, and it fits under no phase between `from` and it.
pub proof fn lemma_first_fit<T>(slots: Seq<Option<T>>, f: nat, from: nat)
    ensures
        match first_fit(slots, f, from) {
            Some(tau) => {
                &&& from <= tau < slots.len()
                &&& fits(slots, f, tau)
                &&& forall|t: nat| from <= t < tau ==> !fits(slots, f, t)
            },
            None => forall|t: nat| from <= t < slots.len() ==> !fits(slots, f, t),
        },
    decreases slots.len() - from,
{
    if from < slots.len() && !fits(slots, f, from) {
        lemma_first_fit(slots, f, from + 1);
    }
}

/// What the walk of `next` finds. The walk never goes backwards and never
/// beyond the frame of the clock. Every frame that it passes before its
/// last is empty. If it yields a task, its last frame holds that task; if
/// it yields none, it has reached the frame of the clock and every frame
/// that it passed is empty. So every task that is due is yielded once, in
/// the order of the slots, and at most one per call.
pub proof fn lemma_scan<T>(schedule: ScheduleView<T>, from: nat, to: nat)
    ensures
        ({
            let found = schedule.scan(from, to);
            &&& from <= found.0
            &&& from <= to ==> found.0 <= to
            &&& to <= from ==> found == (from, None::<T>)
            &&& forall|g: nat| from <= g && g + 1 < found.0 ==> #[trigger] schedule.at(g) is None
            &&& found.1 is Some ==> from < found.0 && schedule.at((found.0 - 1) as nat) == found.1
            &&& found.1 is None && from <= to ==> found.0 == to && forall|g: nat|
                from <= g < to ==> #[trigger] schedule.at(g) is None
        }),
    decreases to - from,
{
    if from < to && schedule.at(from) is None {
        lemma_scan(schedule, from + 1, to);
    }
}

/// A task that asks for more slots than the frame has fits under no phase.
pub proof fn lemma_never_fits<T>(slots: Seq<Option<T>>, f: nat, from: nat)
    requires
        f > slots.len(),
    ensures
        first_fit(slots, f, from) is None,
    decreases slots.len() - from,
{
    if from < slots.len() {
        lemma_never_fits(slots, f, from + 1);
    }
}

/// Removing a task leaves it no slot and leaves every other task its
/// slots.
pub proof fn lemma_cleared<T>(slots: Seq<Option<T>>, task: T)
    ensures
        cleared(slots, task).len() == slots.len(),
        count_of(cleared(slots, task), task) == 0,
        forall|other: T|
            other != task ==> #[trigger] count_of(cleared(slots, task), other) == count_of(
                slots,
                other,
            ),
    decreases slots.len(),
{
    lemma_count_zero(cleared(slots, task), task);
    assert forall|other: T| other != task implies #[trigger] count_of(cleared(slots, task), other)
        == count_of(slots, other) by {
        lemma_cleared_keeps(slots, task, other);
    }
}

/// Removing one task does not change the count of another.
proof fn lemma_cleared_keeps<T>(slots: Seq<Option<T>>, task: T, other: T)
    requires
        other != task,
    ensures
        count_of(cleared(slots, task), other) == count_of(slots, other),
    decreases slots.len(),
{
    if slots.len() > 0 {
        lemma_cleared_keeps(slots.drop_last(), task, other);
        assert(cleared(slots, task).drop_last() =~= cleared(slots.drop_last(), task));
    }
}

/// Success and conflict. A task of frequency `f >= 1` is inserted exactly
/// if it fits under some phase of the frame; the phase chosen is the least.
pub proof fn lemma_insert_decides<T>(schedule: ScheduleView<T>, f: nat, task: T)
    requires
        f >= 1,
    ensures
        schedule.insert(f, task).1 is Ok <==> exists|tau: nat|
            tau < schedule.slots.len() && #[trigger] fits(schedule.slots, f, tau),
        schedule.insert(f, task).1 is Ok ==> ({
            &&& first_fit(schedule.slots, f, 0) matches Some(tau)
            &&& tau < schedule.slots.len()
            &&& fits(schedule.slots, f, tau)
            &&& forall|t: nat| t < tau ==> !fits(schedule.slots, f, t)
            &&& schedule.insert(f, task).0.slots == placed(schedule.slots, f, tau, task)
        }),
        schedule.insert(f, task).1 is Err ==> schedule.insert(f, task).1 == Err::<
            (),
            ScheduleError,
        >(ScheduleError::Conflict),
{
    lemma_first_fit(schedule.slots, f, 0);
}

/// Atomicity. An insert that fails leaves the schedule exactly as it was.
pub proof fn lemma_insert_atomic<T>(schedule: ScheduleView<T>, f: nat, task: T)
    requires
        schedule.insert(f, task).1 is Err,
    ensures
        schedule.insert(f, task).0 == schedule,
{
}

/// Density and disjointness of an insert. An insert of frequency `f >= 1`
/// that succeeds gives the task exactly `f` more slots, all of which were
/// empty: the slots that were taken hold what they held, and every other
/// task has as many slots as before.
pub proof fn lemma_insert_places<T>(schedule: ScheduleView<T>, f: nat, task: T)
    requires
        f >= 1,
        schedule.insert(f, task).1 is Ok,
    ensures
        schedule.insert(f, task).0.slots.len() == schedule.slots.len(),
        count_of(schedule.insert(f, task).0.slots, task) == count_of(schedule.slots, task) + f,
        forall|other: T|
            other != task ==> #[trigger] count_of(schedule.insert(f, task).0.slots, other)
                == count_of(schedule.slots, other),
        forall|j: int|
            0 <= j < schedule.slots.len() && schedule.slots[j] is Some
                ==> #[trigger] schedule.insert(f, task).0.slots[j] == schedule.slots[j],
{
    lemma_first_fit(schedule.slots, f, 0);
    let tau = first_fit(schedule.slots, f, 0)->0;
    lemma_placed(schedule.slots, f, tau, task);
}

/// Density on an empty schedule. A task of frequency `f` with `1 <= f <= n`
/// is inserted into an empty schedule of `n` slots under phase 0: it holds
/// exactly the `f` slots of its pattern, and no other slot holds anything.
pub proof fn lemma_insert_into_empty<T>(schedule: ScheduleView<T>, f: nat, task: T)
    requires
        1 <= f <= schedule.slots.len(),
        forall|j: int| 0 <= j < schedule.slots.len() ==> schedule.slots[j] is None,
    ensures
        schedule.insert(f, task).1 is Ok,
        count_of(schedule.insert(f, task).0.slots, task) == f,
        forall|j: int|
            0 <= j < schedule.slots.len() ==> #[trigger] schedule.insert(f, task).0.slots[j] == (
            if in_pattern(schedule.slots.len(), f, j) {
                Some(task)
            } else {
                None
            }),
{
    let n = schedule.slots.len();
    lemma_collision_zero(schedule.slots, f, 0, f);
    assert forall|i: nat| i < f implies schedule.slots[#[trigger] target(n, f, 0, i)] is None by {
        lemma_pattern_in_frame(n, f, i);
        lemma_rotation(n, 0, pattern_slot(n, f, i), 0);
    }
    assert(fits(schedule.slots, f, 0));
    lemma_placed(schedule.slots, f, 0, task);
    lemma_count_zero(schedule.slots, task);
    assert forall|j: int| 0 <= j < n implies #[trigger] schedule.insert(f, task).0.slots[j] == (
    if in_pattern(n, f, j) {
        Some(task)
    } else {
        None
    }) by {
        vstd::arithmetic::div_mod::lemma_small_mod(j as nat, n);
    }
}

/// A quotient lies below `x` exactly if the dividend lies below `d * x`.
proof fn lemma_quotient_below(a: int, d: int, x: int)
    requires
        d > 0,
    ensures
        a / d < x <==> a < d * x,
{
    lemma_quotient(a, d);
    let q = a / d;
    assert(q < x <==> a < d * x) by (nonlinear_arith)
        requires
            d > 0,
            d * q <= a < d * q + d,
    ;
}

/// The number of occurrences that the endlessly repeated pattern of
/// frequency `f` has before frame `x`: `(x * f - f / 2) / n`, rounded
/// upwards.
pub open spec fn occurrences_before(n: nat, f: nat, x: nat) -> nat {
    ((2 * f * x + 2 * n - f - 1) / (2 * n as int)) as nat
}

/// Occurrence `m` of the repeated pattern lies before frame `x` exactly if
/// `m` is less than the number of occurrences before `x`.
proof fn lemma_occurrences_before(n: nat, f: nat, m: nat, x: nat)
    requires
        1 <= f <= n,
    ensures
        pattern_slot(n, f, m) < x <==> m < occurrences_before(n, f, x),
{
    let mn = m * n;
    let fx = f * x;
    assert(2 * m * n == 2 * mn) by (nonlinear_arith)
        requires
            mn == m * n,
    ;
    assert(2 * f * x == 2 * fx) by (nonlinear_arith)
        requires
            fx == f * x,
    ;
    assert((2 * f) * x == 2 * fx) by (nonlinear_arith)
        requires
            fx == f * x,
    ;
    assert((2 * n) * (m + 1) == 2 * mn + 2 * n) by (nonlinear_arith)
        requires
            mn == m * n,
    ;
    lemma_quotient_below((2 * mn + f) as int, (2 * f) as int, x as int);
    let above = 2 * fx + 2 * n - f - 1;
    lemma_quotient_below(above, (2 * n) as int, (m + 1) as int);
    lemma_quotient(above, 2 * n as int);
}

/// The repeated pattern comes back every `f` occurrences, `n` frames later.
proof fn lemma_pattern_period(n: nat, f: nat, i: nat, k: nat)
    requires
        1 <= f,
    ensures
        pattern_slot(n, f, i + f * k) == pattern_slot(n, f, i) + n * k,
{
    let a = (2 * i * n + f) as int;
    let d = (2 * f) as int;
    lemma_quotient(a, d);
    let nk = (n * k) as int;
    assert(2 * (i + f * k) * n + f == a + d * nk) by (nonlinear_arith)
        requires
            a == 2 * i * n + f,
            d == 2 * f,
            nk == n * k,
    ;
    assert(d * (a / d + nk) == d * (a / d) + d * nk) by (nonlinear_arith);
    lemma_quotient_is(a + d * nk, d, a / d + nk);
}

/// Whether frame `x` is an occurrence of the repeated pattern.
pub open spec fn is_occurrence(n: nat, f: nat, x: nat) -> bool {
    exists|m: nat| #[trigger] pattern_slot(n, f, m) == x
}

/// A frame is an occurrence exactly if the number of occurrences before
/// the next frame is one more than before this one; otherwise the two
/// numbers are equal.
proof fn lemma_occurrence_counts(n: nat, f: nat, x: nat)
    requires
        1 <= f <= n,
    ensures
        occurrences_before(n, f, x + 1) == occurrences_before(n, f, x) + if is_occurrence(
            n,
            f,
            x,
        ) {
            1nat
        } else {
            0nat
        },
{
    let low = occurrences_before(n, f, x);
    let high = occurrences_before(n, f, x + 1);
    lemma_occurrences_before(n, f, low, x);
    lemma_occurrences_before(n, f, low, x + 1);
    lemma_occurrences_before(n, f, low + 1, x + 1);
    lemma_occurrences_before(n, f, low + 1, x);
    lemma_pattern_increasing(n, f, low, low + 1);
    if low > 0 {
        lemma_occurrences_before(n, f, (low - 1) as nat, x);
        lemma_occurrences_before(n, f, (low - 1) as nat, x + 1);
    }
    // `low` is the first occurrence that is not before `x`; the next one
    // lies beyond `x` in any case.
    assert(pattern_slot(n, f, low) >= x);
    assert(pattern_slot(n, f, low + 1) > x);
    assert(high <= low + 1);
    assert(low <= high);
    if is_occurrence(n, f, x) {
        let m = choose|m: nat| #[trigger] pattern_slot(n, f, m) == x;
        lemma_occurrences_before(n, f, m, x);
        lemma_occurrences_before(n, f, m, x + 1);
    } else {
        if high == low + 1 {
            assert(pattern_slot(n, f, low) == x);
        }
    }
}

/// A slot takes the task under phase `tau` exactly if its frame, counted
/// from the phase, is an occurrence of the repeated pattern. The frame `g`
/// is counted with one major frame added, so that the count never falls
/// below zero.
proof fn lemma_takes_is_occurrence(n: nat, f: nat, tau: nat, g: nat)
    requires
        1 <= f <= n,
        tau < n,
    ensures
        takes(n, f, tau, (g % n) as int) <==> is_occurrence(n, f, (g + n - tau) as nat),
{
    let x = (g + n - tau) as nat;
    let j = (g % n) as int;
    let r = (j - tau) % (n as int);
    // x and r differ by a multiple of n
    vstd::arithmetic::div_mod::lemma_fundamental_div_mod(g as int, n as int);
    vstd::arithmetic::div_mod::lemma_fundamental_div_mod(j - tau, n as int);
    vstd::arithmetic::div_mod::lemma_fundamental_div_mod(x as int, n as int);
    let k = (x / n) as nat;
    assert(x % n == r) by {
        let q1 = g as int / n as int;
        let q2 = (j - tau) / (n as int);
        assert(n * q1 + j == g);
        assert(n * q2 + r == j - tau);
        assert(x == n * (q1 + q2 + 1) + r) by (nonlinear_arith)
            requires
                n * q1 + j == g,
                n * q2 + r == j - tau,
                x == g + n - tau,
        ;
        vstd::arithmetic::div_mod::lemma_fundamental_div_mod_converse(
            x as int,
            n as int,
            q1 + q2 + 1,
            r,
        );
    }
    assert(x == n * k + r);
    if takes(n, f, tau, j) {
        let i = choose|i: nat| i < f && #[trigger] pattern_slot(n, f, i) == r;
        lemma_pattern_period(n, f, i, k);
        assert(pattern_slot(n, f, i + f * k) == x);
    }
    if is_occurrence(n, f, x) {
        let m = choose|m: nat| #[trigger] pattern_slot(n, f, m) == x;
        let i = m % f;
        let c = m / f;
        vstd::arithmetic::div_mod::lemma_fundamental_div_mod(m as int, f as int);
        assert(m == i + f * c);
        lemma_pattern_period(n, f, i, c);
        lemma_pattern_in_frame(n, f, i);
        let p = pattern_slot(n, f, i);
        assert(x == n * c + p);
        vstd::arithmetic::div_mod::lemma_fundamental_div_mod_converse(
            x as int,
            n as int,
            c as int,
            p as int,
        );
        assert(p == r);
        assert(i < f && pattern_slot(n, f, i) == r);
    }
}

/// The number of minor frames, among the `len` frames from frame `from`
/// on, whose slot holds the task.
pub open spec fn due_in<T>(slots: Seq<Option<T>>, task: T, from: nat, len: nat) -> nat
    decreases len,
{
    if len == 0 {
        0
    } else {
        due_in(slots, task, from, (len - 1) as nat) + if slots[((from + len - 1) % (
        slots.len() as int))] == Some(task) {
            1nat
        } else {
            0nat
        }
    }
}

/// Whether the task holds exactly the slots that a task of frequency `f`
/// takes under phase `tau`.
pub open spec fn holds_pattern<T>(slots: Seq<Option<T>>, task: T, f: nat, tau: nat) -> bool {
    &&& 1 <= f <= slots.len()
    &&& tau < slots.len()
    &&& forall|j: int|
        0 <= j < slots.len() ==> (#[trigger] slots[j] == Some(task) <==> takes(
            slots.len(),
            f,
            tau,
            j,
        ))
}

/// The frames in which a task is due are counted by the occurrences of
/// the repeated pattern.
proof fn lemma_due_in<T>(slots: Seq<Option<T>>, task: T, f: nat, tau: nat, from: nat, len: nat)
    requires
        holds_pattern(slots, task, f, tau),
    ensures
        due_in(slots, task, from, len) + occurrences_before(
            slots.len(),
            f,
            (from + slots.len() - tau) as nat,
        ) == occurrences_before(slots.len(), f, (from + len + slots.len() - tau) as nat),
    decreases len,
{
    let n = slots.len();
    if len > 0 {
        let g = (from + len - 1) as nat;
        lemma_due_in(slots, task, f, tau, from, (len - 1) as nat);
        lemma_takes_is_occurrence(n, f, tau, g);
        lemma_occurrence_counts(n, f, (g + n - tau) as nat);
        vstd::arithmetic::div_mod::lemma_mod_bound(g as int, n as int);
        assert(slots[(g % n) as int] == Some(task) <==> takes(n, f, tau, (g % n) as int));
    }
}

/// Liveness, in minor frames. A task that holds the slots of frequency `f`
/// is due, in every window of `len` consecutive minor frames, at least
/// `len * f / n` times rounded downwards and at most `len * f / n` times
/// rounded upwards: in a whole major frame exactly `f` times.
pub proof fn lemma_liveness<T>(
    slots: Seq<Option<T>>,
    task: T,
    f: nat,
    tau: nat,
    from: nat,
    len: nat,
)
    requires
        holds_pattern(slots, task, f, tau),
    ensures
        (len * f) / slots.len() <= due_in(slots, task, from, len) <= (len * f + slots.len() - 1)
            / slots.len() as int,
        len == slots.len() ==> due_in(slots, task, from, len) == f,
{
    let n = slots.len();
    let x = (from + n - tau) as nat;
    lemma_due_in(slots, task, f, tau, from, len);
    let low = (2 * f * x + 2 * n - f - 1) as int;
    let lf = (len * f) as int;
    assert(2 * f * (x + len) + 2 * n - f - 1 == low + 2 * lf) by (nonlinear_arith)
        requires
            low == 2 * f * x + 2 * n - f - 1,
            lf == len * f,
    ;
    let d = 2 * n as int;
    lemma_quotient_step(low, 2 * lf, d);
    lemma_quotient(lf, n as int);
    let q = lf / (n as int);
    assert(d * q <= 2 * lf < d * q + d) by (nonlinear_arith)
        requires
            d == 2 * n,
            n * q <= lf < n * q + n,
    ;
    lemma_quotient_is(2 * lf, d, q);
    // the upper bound: where `n` divides `len * f` the count is exact
    if lf == n * q {
        lemma_quotient(low, d);
        assert(d * (low / d + q) == d * (low / d) + 2 * lf) by (nonlinear_arith)
            requires
                d == 2 * n,
                lf == n * q,
        ;
        lemma_quotient_is(low + 2 * lf, d, low / d + q);
        lemma_quotient_is(lf + n - 1, n as int, q);
    } else {
        assert(n * (q + 1) == n * q + n) by (nonlinear_arith);
        lemma_quotient_is(lf + n - 1, n as int, q + 1);
    }
    if len == n {
        assert(lf == n * f) by (nonlinear_arith)
            requires
                lf == len * f,
                len == n,
        ;
        lemma_quotient_is(lf, n as int, f as int);
    }
}

/// A task that was not in the schedule holds, after an insert that
/// succeeds, exactly the slots of its frequency under the phase chosen.
pub proof fn lemma_insert_fresh<T>(schedule: ScheduleView<T>, f: nat, task: T)
    requires
        f >= 1,
        count_of(schedule.slots, task) == 0,
        schedule.insert(f, task).1 is Ok,
    ensures
        first_fit(schedule.slots, f, 0) matches Some(tau) && holds_pattern(
            schedule.insert(f, task).0.slots,
            task,
            f,
            tau,
        ),
{
    lemma_first_fit(schedule.slots, f, 0);
    lemma_count_zero(schedule.slots, task);
}

} // verus!
