//! Square matrices of three and of four rows.

use vstd::prelude::*;
use vstd::string::*;
use std::ops::Index;
use crate::math::vector::{axis_letter, shows, VecN};
use crate::math::{One, Zero, CHAR_DIM, W, X, Y, Z};

verus! {

/// The row of `n` elements with one at `k` and zero elsewhere.
pub open spec fn unit_row<T: One + Zero>(n: nat, k: int) -> Seq<T> {
    Seq::new(n, |i: int| if i == k { T::one_spec() } else { T::zero_spec() })
}

/// A matrix of three rows of three elements.
pub struct Mat2<T> {
    pub x: VecN<T, 3>,
    pub y: VecN<T, 3>,
    pub z: VecN<T, 3>,
}

/// A matrix of four rows of four elements.
pub struct Mat3<T> {
    pub x: VecN<T, 4>,
    pub y: VecN<T, 4>,
    pub z: VecN<T, 4>,
    pub w: VecN<T, 4>,
}

impl<T> Mat2<T> {
    /// The rows, in order.
    pub open spec fn rows(self) -> Seq<VecN<T, 3>> {
        seq![self.x, self.y, self.z]
    }
}

impl<T> Mat3<T> {
    /// The rows, in order.
    pub open spec fn rows(self) -> Seq<VecN<T, 4>> {
        seq![self.x, self.y, self.z, self.w]
    }
}

impl<T> Index<usize> for Mat2<T> {
    type Output = VecN<T, 3>;

    fn index(&self, index: usize) -> (r: &VecN<T, 3>)
        ensures
            *r == self.rows()[index as int],
    {
        if index == 0 {
            &self.x
        } else if index == 1 {
            &self.y
        } else {
            &self.z
        }
    }
}

impl<T> vstd::std_specs::core::IndexSpecImpl<usize> for Mat2<T> {
    open spec fn index_req(&self, index: &usize) -> bool {
        *index < 3
    }
}

impl<T> Index<X> for Mat2<T> {
    type Output = VecN<T, 3>;

    fn index(&self, _axis: X) -> (r: &VecN<T, 3>)
        ensures
            *r == self.x,
    {
        &self.x
    }
}

impl<T> vstd::std_specs::core::IndexSpecImpl<X> for Mat2<T> {
    open spec fn index_req(&self, index: &X) -> bool {
        true
    }
}

impl<T> Index<Y> for Mat2<T> {
    type Output = VecN<T, 3>;

    fn index(&self, _axis: Y) -> (r: &VecN<T, 3>)
        ensures
            *r == self.y,
    {
        &self.y
    }
}

impl<T> vstd::std_specs::core::IndexSpecImpl<Y> for Mat2<T> {
    open spec fn index_req(&self, index: &Y) -> bool {
        true
    }
}

impl<T> Index<Z> for Mat2<T> {
    type Output = VecN<T, 3>;

    fn index(&self, _axis: Z) -> (r: &VecN<T, 3>)
        ensures
            *r == self.z,
    {
        &self.z
    }
}

impl<T> vstd::std_specs::core::IndexSpecImpl<Z> for Mat2<T> {
    open spec fn index_req(&self, index: &Z) -> bool {
        true
    }
}

impl<T> Index<usize> for Mat3<T> {
    type Output = VecN<T, 4>;

    fn index(&self, index: usize) -> (r: &VecN<T, 4>)
        ensures
            *r == self.rows()[index as int],
    {
        if index == 0 {
            &self.x
        } else if index == 1 {
            &self.y
        } else if index == 2 {
            &self.z
        } else {
            &self.w
        }
    }
}

impl<T> vstd::std_specs::core::IndexSpecImpl<usize> for Mat3<T> {
    open spec fn index_req(&self, index: &usize) -> bool {
        *index < 4
    }
}

impl<T> Index<X> for Mat3<T> {
    type Output = VecN<T, 4>;

    fn index(&self, _axis: X) -> (r: &VecN<T, 4>)
        ensures
            *r == self.x,
    {
        &self.x
    }
}

impl<T> vstd::std_specs::core::IndexSpecImpl<X> for Mat3<T> {
    open spec fn index_req(&self, index: &X) -> bool {
        true
    }
}

impl<T> Index<Y> for Mat3<T> {
    type Output = VecN<T, 4>;

    fn index(&self, _axis: Y) -> (r: &VecN<T, 4>)
        ensures
            *r == self.y,
    {
        &self.y
    }
}

impl<T> vstd::std_specs::core::IndexSpecImpl<Y> for Mat3<T> {
    open spec fn index_req(&self, index: &Y) -> bool {
        true
    }
}

impl<T> Index<Z> for Mat3<T> {
    type Output = VecN<T, 4>;

    fn index(&self, _axis: Z) -> (r: &VecN<T, 4>)
        ensures
            *r == self.z,
    {
        &self.z
    }
}

impl<T> vstd::std_specs::core::IndexSpecImpl<Z> for Mat3<T> {
    open spec fn index_req(&self, index: &Z) -> bool {
        true
    }
}

impl<T> Index<W> for Mat3<T> {
    type Output = VecN<T, 4>;

    /// The row on the fourth axis reads the third row, as the row on the third axis does.
    fn index(&self, _axis: W) -> (r: &VecN<T, 4>)
        ensures
            *r == self.z,
    {
        &self.z
    }
}

impl<T> vstd::std_specs::core::IndexSpecImpl<W> for Mat3<T> {
    open spec fn index_req(&self, index: &W) -> bool {
        true
    }
}

impl<T> Mat2<T> where T: One + Zero {
    /// The identity: one on the diagonal, zero elsewhere.
    pub fn identity() -> (m: Self)
        ensures
            m.x@ == unit_row::<T>(3, 0),
            m.y@ == unit_row::<T>(3, 1),
            m.z@ == unit_row::<T>(3, 2),
    {
        let m = Self {
            x: VecN::from([T::one(), T::zero(), T::zero()]),
            y: VecN::from([T::zero(), T::one(), T::zero()]),
            z: VecN::from([T::zero(), T::zero(), T::one()]),
        };
        proof {
            broadcast use VecN::lemma_of;

            assert(m.x@ =~= unit_row::<T>(3, 0));
            assert(m.y@ =~= unit_row::<T>(3, 1));
            assert(m.z@ =~= unit_row::<T>(3, 2));
        }
        m
    }

    /// The number of elements.
    pub fn len(self) -> (n: usize)
        ensures
            n == 9,
    {
        9
    }
}

impl<T> Mat3<T> where T: Zero + One {
    /// The identity: one on the diagonal, zero elsewhere.
    pub fn identity() -> (m: Self)
        ensures
            m.x@ == unit_row::<T>(4, 0),
            m.y@ == unit_row::<T>(4, 1),
            m.z@ == unit_row::<T>(4, 2),
            m.w@ == unit_row::<T>(4, 3),
    {
        let m = Self {
            x: VecN::from([T::one(), T::zero(), T::zero(), T::zero()]),
            y: VecN::from([T::zero(), T::one(), T::zero(), T::zero()]),
            z: VecN::from([T::zero(), T::zero(), T::one(), T::zero()]),
            w: VecN::from([T::zero(), T::zero(), T::zero(), T::one()]),
        };
        proof {
            broadcast use VecN::lemma_of;

            assert(m.x@ =~= unit_row::<T>(4, 0));
            assert(m.y@ =~= unit_row::<T>(4, 1));
            assert(m.z@ =~= unit_row::<T>(4, 2));
            assert(m.w@ =~= unit_row::<T>(4, 3));
        }
        m
    }

    /// The number of elements.
    pub fn len(&self) -> (n: usize)
        ensures
            n == 16,
    {
        16
    }
}

/// The first `k` cells of the row `row` of `n` cells, each as the letters of
/// its column and of its row, a colon, a space and its text, then a comma and
/// a space, or a space alone after the last cell of the row.
pub open spec fn cells_text(texts: Seq<Seq<char>>, n: nat, row: int, k: nat) -> Seq<char>
    decreases k,
{
    if k == 0 {
        Seq::empty()
    } else {
        cells_text(texts, n, row, (k - 1) as nat) + seq![
            axis_letter(k - 1),
            axis_letter(row),
            ':',
            ' ',
        ] + texts[k - 1] + (if k < n {
            seq![',', ' ']
        } else {
            seq![' ']
        })
    }
}

/// A row as text: its cells between square brackets.
pub open spec fn row_text(texts: Seq<Seq<char>>, row: int) -> Seq<char> {
    seq!['[', ' '] + cells_text(texts, texts.len(), row, texts.len()) + seq![']']
}

/// `text` is the row `row` with the given elements, each shown as its type shows it.
pub open spec fn row_shown<T: std::fmt::Display>(elements: Seq<T>, row: int, text: Seq<char>) -> bool {
    exists|texts: Seq<Seq<char>>|
        texts.len() == elements.len() && (forall|i: int|
            0 <= i < elements.len() ==> shows(elements[i], #[trigger] texts[i])) && text == row_text(
            texts,
            row,
        )
}

/// The text of the first cells depends on them alone.
proof fn lemma_cells_text_prefix(a: Seq<Seq<char>>, b: Seq<Seq<char>>, n: nat, row: int, k: nat)
    requires
        k <= a.len() <= b.len(),
        forall|i: int| 0 <= i < k ==> a[i] == b[i],
    ensures
        cells_text(a, n, row, k) == cells_text(b, n, row, k),
    decreases k,
{
    if k > 0 {
        lemma_cells_text_prefix(a, b, n, row, (k - 1) as nat);
    }
}

/// The row `row` of a matrix as text, such as `[ xx: 1, yx: 0, zx: 0 ]`.
fn row_to_text<T: std::fmt::Display, const N: usize>(elements: &VecN<T, N>, row: usize) -> (r:
    String)
    requires
        N <= 4,
        row < 4,
    ensures
        row_shown(elements@, row as int, r@),
{
    broadcast use VecN::lemma_len;

    proof {
        reveal_strlit("[ ");
        reveal_strlit("]");
    }
    let mut r = String::from_str("[ ");
    let ghost mut texts: Seq<Seq<char>> = Seq::empty();
    for j in 0..N
        invariant
            N <= 4,
            row < 4,
            texts.len() == j,
            elements@.len() == N,
            forall|k: int| 0 <= k < j ==> shows(elements@[k], #[trigger] texts[k]),
            r@ == seq!['[', ' '] + cells_text(texts, N as nat, row as int, j as nat),
    {
        let column = CHAR_DIM[j];
        let line = CHAR_DIM[row];
        let shown = elements[j].to_string();
        let ghost before = texts;
        let ghost start = r@;
        proof {
            reveal_strlit(": ");
            reveal_strlit(", ");
            reveal_strlit(" ");
            texts = texts.push(shown@);
            assert(shows(elements@[j as int], shown@));
            lemma_cells_text_prefix(before, texts, N as nat, row as int, j as nat);
            assert(column == axis_letter(j as int));
            assert(line == axis_letter(row as int));
        }
        r.push(column);
        r.push(line);
        r.append(": ");
        r.append(shown.as_str());
        if j < N - 1 {
            r.append(", ");
        } else {
            r.append(" ");
        }
        proof {
            let tail: Seq<char> = if j + 1 < N {
                seq![',', ' ']
            } else {
                seq![' ']
            };
            assert(r@ =~= start + seq![column, line, ':', ' '] + shown@ + tail);
            assert(texts[j as int] == shown@);
            assert(cells_text(texts, N as nat, row as int, (j + 1) as nat) == cells_text(
                texts,
                N as nat,
                row as int,
                j as nat,
            ) + seq![column, line, ':', ' '] + shown@ + tail);
            assert(r@ =~= seq!['[', ' '] + cells_text(
                texts,
                N as nat,
                row as int,
                (j + 1) as nat,
            ));
        }
    }
    r.append("]");
    proof {
        assert(r@ =~= row_text(texts, row as int));
    }
    r
}

impl<T: std::fmt::Display> Mat2<T> {
    /// The matrix as text: one row to a line, and an empty line after the last.
    pub fn to_text(&self) -> (r: String)
        ensures
            exists|x: Seq<char>, y: Seq<char>, z: Seq<char>|
                row_shown(self.x@, 0, x) && row_shown(self.y@, 1, y) && row_shown(self.z@, 2, z)
                    && r@ == x + seq!['\n'] + y + seq!['\n'] + z + seq!['\n', '\n'],
    {
        proof {
            reveal_strlit("\n");
        }
        let x = row_to_text(&self.x, 0);
        let y = row_to_text(&self.y, 1);
        let z = row_to_text(&self.z, 2);
        let mut r = String::new();
        r.append(x.as_str());
        r.append("\n");
        r.append(y.as_str());
        r.append("\n");
        r.append(z.as_str());
        r.append("\n");
        r.append("\n");
        proof {
            assert(r@ =~= x@ + seq!['\n'] + y@ + seq!['\n'] + z@ + seq!['\n', '\n']);
        }
        r
    }
}

impl<T: std::fmt::Display> Mat3<T> {
    /// The matrix as text: one row to a line.
    pub fn to_text(&self) -> (r: String)
        ensures
            exists|x: Seq<char>, y: Seq<char>, z: Seq<char>, w: Seq<char>|
                row_shown(self.x@, 0, x) && row_shown(self.y@, 1, y) && row_shown(self.z@, 2, z)
                    && row_shown(self.w@, 3, w) && r@ == x + seq!['\n'] + y + seq!['\n'] + z
                    + seq!['\n'] + w,
    {
        proof {
            reveal_strlit("\n");
        }
        let x = row_to_text(&self.x, 0);
        let y = row_to_text(&self.y, 1);
        let z = row_to_text(&self.z, 2);
        let w = row_to_text(&self.w, 3);
        let mut r = String::new();
        r.append(x.as_str());
        r.append("\n");
        r.append(y.as_str());
        r.append("\n");
        r.append(z.as_str());
        r.append("\n");
        r.append(w.as_str());
        proof {
            assert(r@ =~= x@ + seq!['\n'] + y@ + seq!['\n'] + z@ + seq!['\n'] + w@);
        }
        r
    }
}

} // verus!
