//! A growable buffer in two partitions.
//!
//! ```text
//! [ A, B | C, D ]
//!         ^ top
//! ```
//!
//! What lies left of `top` is consumed, what lies right of it is pending.
//! Pushing appends on the right; popping moves `top` to the right. Nothing
//! is ever taken out, so a whole batch is retired in one step.

use vstd::prelude::*;
use vstd::std_specs::iter::IteratorSpec;

verus! {

/// `std::slice::IterMut`, the iterator that `iter_mut` of a slice returns.
/// The library hands it on and looks at nothing inside it.
#[verifier::external_type_specification]
#[verifier::external_body]
#[verifier::reject_recursive_types(T)]
pub struct ExIterMut<'a, T: 'a>(core::slice::IterMut<'a, T>);

/// `<[T]>::iter_mut` of std, which its documentation calls an iterator
/// that allows modifying each value and yields all items from start to
/// end. So the iterator yields as many references as the slice has
/// elements and then ends; the reference at each place holds the element
/// at that place; and when the borrow is over, the slice holds at each
/// place what was left behind its reference. It can neither add nor
/// remove an element.
#[verifier::external_body]
fn slice_iter_mut<'a, T>(slice: &'a mut [T]) -> (it: core::slice::IterMut<'a, T>)
    ensures
        IteratorSpec::obeys_prophetic_iter_laws(&it),
        IteratorSpec::will_return_none(&it),
        IteratorSpec::decrease(&it) is Some,
        IteratorSpec::remaining(&it).len() == old(slice)@.len(),
        forall|i: int|
            #![trigger IteratorSpec::remaining(&it)[i]]
            0 <= i < old(slice)@.len() ==> *IteratorSpec::remaining(&it)[i] == old(slice)@[i],
        final(slice)@.len() == old(slice)@.len(),
        forall|i: int|
            #![trigger IteratorSpec::remaining(&it)[i]]
            #![trigger final(slice)@[i]]
            0 <= i < old(slice)@.len() ==> final(slice)@[i] == *final(
                IteratorSpec::remaining(&it)[i]
            ),
{
    slice.iter_mut()
}

/// A buffer as two sequences: the consumed elements and the pending ones.
pub struct SlidingView<T> {
    pub left: Seq<T>,
    pub right: Seq<T>,
}

impl<T> SlidingView<T> {
    /// The boundary: the number of consumed elements.
    pub open spec fn top(self) -> nat {
        self.left.len()
    }

    /// With `val` appended to the pending elements.
    pub open spec fn push(self, val: T) -> Self {
        SlidingView { left: self.left, right: self.right.push(val) }
    }

    /// With the first `n` pending elements consumed, or all of them where
    /// there are fewer.
    pub open spec fn pop_n(self, n: nat) -> Self {
        if n <= self.right.len() {
            SlidingView {
                left: self.left + self.right.take(n as int),
                right: self.right.skip(n as int),
            }
        } else {
            SlidingView { left: self.left + self.right, right: Seq::empty() }
        }
    }

    /// The pending element at `id`, counted from the boundary.
    pub open spec fn get_right(self, id: nat) -> Option<T> {
        if id < self.right.len() {
            Some(self.right[id as int])
        } else {
            None
        }
    }

    /// The consumed element at `id`, counted from the start.
    pub open spec fn get_left(self, id: nat) -> Option<T> {
        if id < self.left.len() {
            Some(self.left[id as int])
        } else {
            None
        }
    }

    /// Whether nothing is pending.
    pub open spec fn is_empty(self) -> bool {
        self.right.len() == 0
    }
}

/// A push and then a pop of one element move the boundary on by exactly
/// one, over the element that was first in line. The pushed element stays
/// in reach of the pending accessors, as the last one, exactly where
/// something was pending before the push.
pub proof fn lemma_push_then_pop<T>(s: SlidingView<T>, val: T)
    ensures
        s.push(val).pop_n(1).top() == s.top() + 1,
        s.push(val).pop_n(1).left == s.left.push(s.right.push(val)[0]),
        s.push(val).pop_n(1).right == s.right.push(val).skip(1),
        s.right.len() > 0 ==> s.push(val).pop_n(1).get_right((s.right.len() - 1) as nat) == Some(
            val,
        ),
        s.right.len() > 0 ==> s.push(val).pop_n(1).left.last() == s.right[0],
{
    assert(s.left + s.right.push(val).take(1) =~= s.left.push(s.right.push(val)[0]));
}

/// Where nothing was pending, a push and then a pop of one element leave
/// nothing pending: the pushed element is the one consumed, and no
/// pending accessor reaches it.
pub proof fn lemma_push_then_pop_retires<T>(s: SlidingView<T>, val: T)
    requires
        s.is_empty(),
    ensures
        s.push(val).pop_n(1).top() == s.top() + 1,
        s.push(val).pop_n(1).left == s.left.push(val),
        s.push(val).pop_n(1).is_empty(),
        forall|id: nat| s.push(val).pop_n(1).get_right(id) is None,
{
    lemma_push_then_pop(s, val);
}

/// The number of windows that `len` elements fall into, `n` to a window:
/// `len / n`, rounded up.
pub open spec fn window_count(len: nat, n: nat) -> nat {
    if n == 0 {
        0
    } else {
        ((len + n - 1) / (n as int)) as nat
    }
}

/// Whether `len` elements have a window `i`.
pub open spec fn has_window(len: nat, n: nat, i: int) -> bool {
    0 <= i < window_count(len, n)
}

/// Where window `i` begins.
pub open spec fn window_start(n: nat, i: int) -> int {
    i * n
}

/// Where window `i` ends: `n` elements on, or where the elements end.
pub open spec fn window_end(len: nat, n: nat, i: int) -> int {
    if (i + 1) * n < len {
        (i + 1) * n
    } else {
        len as int
    }
}

/// Window `i` of `s`, `n` elements to a window.
pub open spec fn window<T>(s: Seq<T>, n: nat, i: int) -> Seq<T> {
    s.subrange(window_start(n, i), window_end(s.len(), n, i))
}

/// Window `i` exists exactly where it begins before the elements end.
pub proof fn lemma_window_exists(len: nat, n: nat, i: int)
    requires
        n > 0,
        0 <= i,
    ensures
        i < window_count(len, n) <==> window_start(n, i) < len,
{
    let c = (len + n - 1) / (n as int);
    assert(c * n <= len + n - 1 < (c + 1) * n) by (nonlinear_arith)
        requires
            c == (len + n - 1) / (n as int),
            n > 0,
    ;
    if i < c {
        assert((i + 1) * n <= c * n) by (nonlinear_arith)
            requires
                i + 1 <= c,
                n > 0,
        ;
        assert((i + 1) * n == i * n + n) by (nonlinear_arith);
    } else {
        assert(c * n <= i * n) by (nonlinear_arith)
            requires
                c <= i,
                n > 0,
        ;
        assert((c + 1) * n == c * n + n) by (nonlinear_arith);
    }
}

/// The windows lie side by side, from the first element to the last:
/// each begins where the one before it ended, each but the last holds
/// exactly `n` elements, and the last holds between 1 and `n`.
pub proof fn lemma_window_bounds(len: nat, n: nat, i: int)
    requires
        n > 0,
        0 <= i < window_count(len, n),
    ensures
        0 <= window_start(n, i) < window_end(len, n, i) <= len,
        window_start(n, i + 1) >= window_end(len, n, i),
        i + 1 < window_count(len, n) ==> window_end(len, n, i) - window_start(n, i) == n
            && window_end(len, n, i) == window_start(n, i + 1),
        i + 1 == window_count(len, n) ==> window_end(len, n, i) == len && 1 <= len
            - window_start(n, i) <= n,
        i == 0 ==> window_start(n, i) == 0,
{
    lemma_window_exists(len, n, i);
    lemma_window_exists(len, n, i + 1);
    assert((i + 1) * n == i * n + n) by (nonlinear_arith);
    assert(0 <= i * n) by (nonlinear_arith)
        requires
            0 <= i,
            n > 0,
    ;
    assert(i == 0 ==> i * n == 0) by (nonlinear_arith);
}

/// Every element lies in exactly one window: the element at place `j` in
/// window `j / n`, and in no other.
pub proof fn lemma_windows_cover(len: nat, n: nat, j: int, i: int)
    requires
        n > 0,
        0 <= j < len,
    ensures
        has_window(len, n, j / (n as int)),
        has_window(len, n, i) && window_start(n, i) <= j < window_end(len, n, i) <==> i == j / (
        n as int),
{
    let k = j / (n as int);
    vstd::arithmetic::div_mod::lemma_fundamental_div_mod(j, n as int);
    assert(n * k == k * n) by (nonlinear_arith);
    assert(0 <= k) by (nonlinear_arith)
        requires
            0 <= j,
            0 < n,
            k == j / (n as int),
    ;
    assert(k * n <= j < (k + 1) * n) by (nonlinear_arith)
        requires
            j == k * n + j % (n as int),
            0 <= j % (n as int) < n,
    ;
    lemma_window_exists(len, n, k);
    assert(window_start(n, k) < len) by {
        assert(k * n <= j);
    }
    if has_window(len, n, i) && window_start(n, i) <= j < window_end(len, n, i) {
        assert(i * n <= j < (i + 1) * n);
        if i < k {
            assert((i + 1) * n <= k * n) by (nonlinear_arith)
                requires
                    i + 1 <= k,
                    n > 0,
            ;
        }
        if i > k {
            assert((k + 1) * n <= i * n) by (nonlinear_arith)
                requires
                    k + 1 <= i,
                    n > 0,
            ;
        }
    }
}

/// A buffer of elements with a boundary between the consumed ones and the
/// pending ones.
#[derive(Debug)]
pub struct SlidingVec<T> {
    data: Vec<T>,
    top: usize,
}

impl<T> View for SlidingVec<T> {
    type V = SlidingView<T>;

    closed spec fn view(&self) -> SlidingView<T> {
        SlidingView {
            left: self.data@.subrange(0, self.top as int),
            right: self.data@.subrange(self.top as int, self.data@.len() as int),
        }
    }
}

impl<T> SlidingVec<T> {
    /// The boundary lies within the buffer.
    pub closed spec fn wf(&self) -> bool {
        self.top <= self.data.len()
    }

    /// The elements of a buffer can be counted.
    pub proof fn lemma_fits(&self)
        requires
            self.wf(),
        ensures
            self@.left.len() + self@.right.len() <= usize::MAX,
    {
    }

    /// An empty buffer.
    pub fn new() -> (s: Self)
        ensures
            s.wf(),
            s@.left == Seq::<T>::empty(),
            s@.right == Seq::<T>::empty(),
    {
        Self { data: Vec::new(), top: 0 }
    }

    /// A buffer that holds `data`, all of it pending.
    pub fn from_vec(data: Vec<T>) -> (s: Self)
        ensures
            s.wf(),
            s@.left == Seq::<T>::empty(),
            s@.right == data@,
    {
        Self { data, top: 0 }
    }

    /// Gives up the buffer for an iterator over its pending elements: it
    /// yields each of them, in order, and then ends. The consumed elements
    /// are dropped.
    pub fn into_iter(self) -> (it: std::vec::IntoIter<T>)
        requires
            self.wf(),
        ensures
            vstd::std_specs::vec::into_iter_elts(it) == self@.right,
            IteratorSpec::remaining(&it) == self@.right,
            IteratorSpec::decrease(&it) is Some,
            IteratorSpec::initial_value_relation(&it, &it),
    {
        let mut data = self.data;
        let right = data.split_off(self.top);
        let it = right.into_iter();
        proof {
            broadcast use vstd::std_specs::vec::axiom_spec_into_iter;
        }
        it
    }

    /// The number of pending elements.
    pub fn right_len(&self) -> (n: usize)
        requires
            self.wf(),
        ensures
            n == self@.right.len(),
    {
        self.data.len() - self.top
    }

    /// The number of consumed elements.
    pub fn left_len(&self) -> (n: usize)
        requires
            self.wf(),
        ensures
            n == self@.left.len(),
    {
        self.top
    }

    /// Appends `val` to the pending partition.
    pub fn push(&mut self, val: T)
        requires
            old(self).wf(),
        ensures
            final(self).wf(),
            final(self)@ == old(self)@.push(val),
    {
        self.data.push(val);
        assert(self@.left =~= old(self)@.left);
        assert(self@.right =~= old(self)@.right.push(val));
    }

    /// Retires the first pending element, if there is one.
    pub fn pop(&mut self)
        requires
            old(self).wf(),
        ensures
            final(self).wf(),
            final(self)@ == old(self)@.pop_n(1),
    {
        self.pop_n(1);
    }

    /// Retires the first `n` pending elements, or all of them where there
    /// are fewer: the boundary never passes the end.
    pub fn pop_n(&mut self, n: usize)
        requires
            old(self).wf(),
        ensures
            final(self).wf(),
            final(self)@ == old(self)@.pop_n(n as nat),
    {
        let pending = self.data.len() - self.top;
        if n <= pending {
            self.top = self.top + n;
            assert(self@.left =~= old(self)@.left + old(self)@.right.take(n as int));
            assert(self@.right =~= old(self)@.right.skip(n as int));
        } else {
            self.top = self.data.len();
            assert(self@.left =~= old(self)@.left + old(self)@.right);
            assert(self@.right =~= Seq::<T>::empty());
        }
    }

    /// The pending element at `id`, counted from the boundary.
    pub fn get_right(&self, id: usize) -> (r: Option<&T>)
        requires
            self.wf(),
        ensures
            match r {
                Some(e) => self@.get_right(id as nat) == Some(*e),
                None => self@.get_right(id as nat) is None,
            },
    {
        if id < self.data.len() - self.top {
            Some(&self.data[self.top + id])
        } else {
            None
        }
    }

    /// The pending element at `id`, to be changed in place. Nothing else
    /// in the buffer changes.
    pub fn get_mut_right(&mut self, id: usize) -> (r: Option<&mut T>)
        requires
            old(self).wf(),
        ensures
            final(self).wf(),
            final(self)@.left == old(self)@.left,
            id >= old(self)@.right.len() ==> r is None && final(self)@.right == old(self)@.right,
            id < old(self)@.right.len() ==> (r matches Some(e) && *e == old(self)@.right[id as int]
                && final(self)@.right == old(self)@.right.update(id as int, *final(e))),
    {
        if id < self.data.len() - self.top {
            let ghost before = self.data@;
            let e = &mut self.data[self.top + id];
            proof {
                let after = before.update(self.top + id, *final(e));
                assert(after.subrange(0, self.top as int) =~= before.subrange(0, self.top as int));
                assert(after.subrange(self.top as int, after.len() as int) =~= before.subrange(
                    self.top as int,
                    before.len() as int,
                ).update(id as int, *final(e)));
            }
            Some(e)
        } else {
            None
        }
    }

    /// The consumed element at `id`, counted from the start.
    pub fn get_left(&self, id: usize) -> (r: Option<&T>)
        requires
            self.wf(),
        ensures
            match r {
                Some(e) => self@.get_left(id as nat) == Some(*e),
                None => self@.get_left(id as nat) is None,
            },
    {
        if id >= self.top {
            None
        } else {
            Some(&self.data[id])
        }
    }

    /// The consumed element at `id`, to be changed in place. Nothing else
    /// in the buffer changes.
    pub fn get_mut_left(&mut self, id: usize) -> (r: Option<&mut T>)
        requires
            old(self).wf(),
        ensures
            final(self).wf(),
            final(self)@.right == old(self)@.right,
            id >= old(self)@.left.len() ==> r is None && final(self)@.left == old(self)@.left,
            id < old(self)@.left.len() ==> (r matches Some(e) && *e == old(self)@.left[id as int]
                && final(self)@.left == old(self)@.left.update(id as int, *final(e))),
    {
        if id >= self.top {
            None
        } else {
            let ghost before = self.data@;
            let e = &mut self.data[id];
            proof {
                let after = before.update(id as int, *final(e));
                assert(after.subrange(0, self.top as int) =~= before.subrange(
                    0,
                    self.top as int,
                ).update(id as int, *final(e)));
                assert(after.subrange(self.top as int, after.len() as int) =~= before.subrange(
                    self.top as int,
                    before.len() as int,
                ));
            }
            Some(e)
        }
    }

    /// An iterator over the pending elements, from the boundary on: it
    /// yields a reference to each of them, in order, and then ends.
    pub fn iter(&self) -> (it: core::slice::Iter<'_, T>)
        requires
            self.wf(),
        ensures
            vstd::std_specs::slice::into_iter_elts(it) == self@.right,
            IteratorSpec::remaining(&it) == self@.right.as_ref(),
            IteratorSpec::decrease(&it) is Some,
            IteratorSpec::initial_value_relation(&it, &it),
    {
        let pending = vstd::slice::slice_subrange(self.data.as_slice(), self.top, self.data.len());
        let it = pending.iter();
        proof {
            broadcast use vstd::std_specs::slice::axiom_spec_slice_iter;
            assert(pending@.as_ref().unref() =~= pending@);
        }
        it
    }

    /// An iterator over the pending elements that lets each be changed in
    /// place: it yields a mutable reference to each of them, from the
    /// boundary on, and then ends. When the borrow is over, each pending
    /// place holds what was left behind its reference. The consumed
    /// elements stay as they are, and as many elements are pending as
    /// before.
    pub fn iter_mut(&mut self) -> (it: core::slice::IterMut<'_, T>)
        requires
            old(self).wf(),
        ensures
            IteratorSpec::obeys_prophetic_iter_laws(&it),
            IteratorSpec::will_return_none(&it),
            IteratorSpec::decrease(&it) is Some,
            IteratorSpec::remaining(&it).len() == old(self)@.right.len(),
            forall|i: int|
                #![trigger IteratorSpec::remaining(&it)[i]]
                0 <= i < old(self)@.right.len() ==> *IteratorSpec::remaining(&it)[i] == old(
                    self,
                )@.right[i],
            final(self).wf(),
            final(self)@.left == old(self)@.left,
            final(self)@.right.len() == old(self)@.right.len(),
            forall|i: int|
                #![trigger IteratorSpec::remaining(&it)[i]]
                #![trigger final(self)@.right[i]]
                0 <= i < old(self)@.right.len() ==> final(self)@.right[i] == *final(
                    IteratorSpec::remaining(&it)[i]
                ),
    {
        let whole = self.data.as_mut_slice();
        let (_left, right) = whole.split_at_mut(self.top);
        slice_iter_mut(right)
    }

    /// Cuts the pending elements into windows of `n`, of which the last may
    /// be shorter, and calls `closure` once on each, from the boundary to
    /// the end, with the window to change in place. The next window is
    /// not begun before the call on this one has returned. What the calls
    /// returned comes back in the same order.
    ///
    /// The closure has to accept every window. It cannot make a slice
    /// longer or shorter, and has to say so of itself.
    pub fn window_right<R, F: FnMut(&mut [T]) -> R>(&mut self, n: usize, closure: F) -> (results:
        Vec<R>)
        requires
            old(self).wf(),
            n > 0,
            forall|i: int, w: &mut [T]|
                #![trigger has_window(old(self)@.right.len(), n as nat, i), call_requires(closure, (w,))]
                has_window(old(self)@.right.len(), n as nat, i) && w@ == window(
                    old(self)@.right,
                    n as nat,
                    i,
                ) ==> call_requires(closure, (w,)),
            forall|w: &mut [T], r: R| #[trigger]
                call_ensures(closure, (w,), r) ==> final(w)@.len() == w@.len(),
        ensures
            final(self).wf(),
            final(self)@.left == old(self)@.left,
            final(self)@.right.len() == old(self)@.right.len(),
            results@.len() == window_count(old(self)@.right.len(), n as nat),
            forall|i: int| #[trigger]
                has_window(old(self)@.right.len(), n as nat, i) ==> exists|w: &mut [T]|
                    #![trigger call_ensures(closure, (w,), results@[i])]
                    w@ == window(old(self)@.right, n as nat, i) && final(w)@ == window(
                        final(self)@.right,
                        n as nat,
                        i,
                    ) && call_ensures(closure, (w,), results@[i]),
    {
        let top = self.top;
        let total = self.data.len() - self.top;
        let ghost orig = self@.right;
        let mut each = closure;
        let mut results: Vec<R> = Vec::new();
        let mut start: usize = 0;
        assert(0 * n == 0) by (nonlinear_arith);
        while start < total
            invariant
                self.wf(),
                self.top == top,
                self.data.len() == top + total,
                each == closure,
                orig == old(self)@.right,
                orig.len() == total,
                n > 0,
                start <= total,
                start == window_start(n as nat, results@.len() as int) || (start == total
                    && window_start(n as nat, results@.len() as int) >= total),
                results@.len() <= window_count(total as nat, n as nat),
                self@.left == old(self)@.left,
                self@.right.len() == total,
                forall|j: int| start <= j < total ==> self@.right[j] == orig[j],
                forall|i: int, w: &mut [T]|
                    #![trigger has_window(total as nat, n as nat, i), call_requires(closure, (w,))]
                    has_window(total as nat, n as nat, i) && w@ == window(orig, n as nat, i)
                        ==> call_requires(closure, (w,)),
                forall|w: &mut [T], r: R| #[trigger]
                    call_ensures(closure, (w,), r) ==> final(w)@.len() == w@.len(),
                forall|i: int| #[trigger]
                    has_window(total as nat, n as nat, i) && i < results@.len() ==> window_end(
                        total as nat,
                        n as nat,
                        i,
                    ) <= start && exists|w: &mut [T]|
                        #![trigger call_ensures(closure, (w,), results@[i])]
                        w@ == window(orig, n as nat, i) && final(w)@ == window(
                            self@.right,
                            n as nat,
                            i,
                        ) && call_ensures(closure, (w,), results@[i]),
            decreases total - start,
        {
            let ghost i = results@.len() as int;
            let ghost before = self@.right;
            let ghost done = results@;
            let end = if total - start > n {
                start + n
            } else {
                total
            };
            proof {
                lemma_window_exists(total as nat, n as nat, i);
                lemma_window_bounds(total as nat, n as nat, i);
                assert(has_window(total as nat, n as nat, i));
            }
            let whole = self.data.as_mut_slice();
            let (_head, rest) = whole.split_at_mut(top + start);
            let (win, _tail) = rest.split_at_mut(end - start);
            assert(win@ =~= window(orig, n as nat, i));
            let r = each(win);
            results.push(r);
            proof {
                let now = self@.right;
                assert(now.subrange(start as int, end as int) =~= final(win)@);
                assert(self@.left =~= old(self)@.left);
                assert(window(now, n as nat, i) =~= final(win)@);
                lemma_window_exists(total as nat, n as nat, i + 1);
                assert(results@[i] == r);
                assert forall|k: int| #[trigger]
                    has_window(total as nat, n as nat, k) && k < results@.len() implies window_end(
                    total as nat,
                    n as nat,
                    k,
                ) <= end && exists|w: &mut [T]|
                    #![trigger call_ensures(closure, (w,), results@[k])]
                    w@ == window(orig, n as nat, k) && final(w)@ == window(now, n as nat, k)
                        && call_ensures(closure, (w,), results@[k]) by {
                    if k < i {
                        assert(results@[k] == done[k]);
                        lemma_window_bounds(total as nat, n as nat, k);
                        assert(window(now, n as nat, k) =~= window(before, n as nat, k));
                    }
                }
            }
            start = end;
        }
        proof {
            lemma_window_exists(total as nat, n as nat, results@.len() as int);
        }
        results
    }

    /// Whether nothing is pending.
    pub fn is_empty(&self) -> (b: bool)
        requires
            self.wf(),
        ensures
            b == self@.is_empty(),
    {
        self.data.len() == self.top
    }
}

} // verus!
