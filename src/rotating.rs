//! A fixed-size buffer whose tick moves the last element to the front.

use vstd::prelude::*;
use vstd::arithmetic::div_mod::*;

verus! {

/// `s` with its last element moved to the front; the empty sequence stays empty.
pub open spec fn rotate_right<T>(s: Seq<T>) -> Seq<T> {
    if s.len() == 0 {
        s
    } else {
        seq![s.last()] + s.drop_last()
    }
}

/// `s` after `n` right rotations.
pub open spec fn rotated<T>(s: Seq<T>, n: nat) -> Seq<T>
    decreases n,
{
    if n == 0 {
        s
    } else {
        rotate_right(rotated(s, (n - 1) as nat))
    }
}

/// An ordered buffer whose membership never changes: ticking only rotates it.
pub struct RotatingBuffer<T> {
    items: Vec<T>,
}

impl<T> View for RotatingBuffer<T> {
    type V = Seq<T>;

    closed spec fn view(&self) -> Seq<T> {
        self.items@
    }
}

impl<T> RotatingBuffer<T> {
    pub fn new(items: Vec<T>) -> (r: RotatingBuffer<T>)
        ensures
            r@ == items@,
    {
        RotatingBuffer { items }
    }

    /// The elements in their current order.
    pub fn items(&self) -> (r: &Vec<T>)
        ensures
            r@ == self@,
    {
        &self.items
    }

    pub fn len(&self) -> (r: usize)
        ensures
            r == self@.len(),
    {
        self.items.len()
    }

    /// Moves the last element to the front; an empty buffer stays empty.
    pub fn tick(&mut self)
        ensures
            final(self)@ == rotate_right(old(self)@),
    {
        match self.items.pop() {
            Some(last) => {
                self.items.insert(0, last);
                assert(self.items@ =~= rotate_right(old(self)@));
            },
            None => {},
        }
    }
}

/// One rotation keeps the multiset of elements.
pub proof fn lemma_rotate_right_multiset<T>(s: Seq<T>)
    ensures
        rotate_right(s).to_multiset() == s.to_multiset(),
{
    if s.len() > 0 {
        let front = seq![s.last()];
        let rest = s.drop_last();
        vstd::seq_lib::lemma_multiset_commutative(front, rest);
        vstd::seq_lib::lemma_multiset_commutative(rest, front);
        assert(rest + front =~= s);
        assert(front.to_multiset().add(rest.to_multiset()) =~= rest.to_multiset().add(
            front.to_multiset(),
        ));
    }
}

/// Element `i` of `s` after `n` rotations is element `(i - n) mod len` of `s`.
pub proof fn lemma_rotated_index<T>(s: Seq<T>, n: nat, i: int)
    requires
        0 <= i < s.len(),
    ensures
        rotated(s, n).len() == s.len(),
        rotated(s, n)[i] == s[(i - n) % (s.len() as int)],
    decreases n,
{
    let len = s.len() as int;
    if n == 0 {
        lemma_small_mod(i as nat, len as nat);
    } else {
        let m = (n - 1) as nat;
        assert forall|j: int| 0 <= j < len implies rotated(s, m).len() == len && rotated(s, m)[j]
            == s[(j - m) % len] by {
            lemma_rotated_index(s, m, j);
        }
        if i == 0 {
            assert(rotated(s, n)[0] == rotated(s, m)[len - 1]);
            lemma_mod_add_multiples_vanish(-1 - m, len);
            assert(len - 1 - m == len + (-1 - m));
        } else {
            assert(rotated(s, n)[i] == rotated(s, m)[i - 1]);
            assert(i - 1 - m == i - n);
        }
    }
}

/// Ticking a buffer `n` times keeps its multiset of elements, and leaves the same
/// order as ticking it `n mod len` times.
pub proof fn lemma_rotating_buffer_ticks<T>(s: Seq<T>, n: nat)
    ensures
        rotated(s, n).to_multiset() == s.to_multiset(),
        s.len() > 0 ==> rotated(s, n) == rotated(s, n % s.len()),
    decreases n,
{
    if n > 0 {
        lemma_rotating_buffer_ticks(s, (n - 1) as nat);
        lemma_rotate_right_multiset(rotated(s, (n - 1) as nat));
    }
    if s.len() > 0 {
        let len = s.len() as int;
        let k = n % s.len();
        assert forall|i: int| 0 <= i < len implies rotated(s, n)[i] == rotated(s, k)[i] by {
            lemma_rotated_index(s, n, i);
            lemma_rotated_index(s, k, i);
            lemma_fundamental_div_mod(n as int, len);
            lemma_mod_multiples_vanish(-(n as int / len), i - k, len);
            assert(i - n == -(n as int / len) * len + (i - k)) by (nonlinear_arith)
                requires
                    n as int == len * (n as int / len) + (n as int % len),
                    k == n as int % len,
            ;
        }
        lemma_rotated_index(s, n, 0);
        lemma_rotated_index(s, k, 0);
        assert(rotated(s, n) =~= rotated(s, k));
    }
}

} // verus!
