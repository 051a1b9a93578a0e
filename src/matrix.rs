//! A dense row-major matrix of any copyable element, with the layout
//! operations the model needs: filling, slicing, padding and joining columns.

use vstd::prelude::*;

verus! {

/// `row` extended with `fill` up to `width` entries.
pub open spec fn pad_row<T>(row: Seq<T>, width: nat, fill: T) -> Seq<T> {
    row + Seq::new((width - row.len()) as nat, |_j: int| fill)
}

/// A `rows` by `cols` block of `value`.
pub open spec fn filled_rows<T>(rows: nat, cols: nat, value: T) -> Seq<Seq<T>> {
    Seq::new(rows, |_i: int| Seq::new(cols, |_j: int| value))
}

/// Every row of `m` has `cols` entries.
pub open spec fn rows_have_width<T>(m: Seq<Seq<T>>, cols: nat) -> bool {
    forall|i: int| 0 <= i < m.len() ==> (#[trigger] m[i]).len() == cols
}

/// A matrix: a sequence of rows that all have the same width.
#[derive(Debug)]
pub struct Matrix<T> {
    rows: Vec<Vec<T>>,
    cols: usize,
}

impl<T> View for Matrix<T> {
    type V = Seq<Seq<T>>;

    closed spec fn view(&self) -> Seq<Seq<T>> {
        self.rows@.map_values(|r: Vec<T>| r@)
    }
}

impl<T> Matrix<T> {
    #[verifier::type_invariant]
    spec fn inv(self) -> bool {
        forall|i: int| 0 <= i < self.rows@.len() ==> (#[trigger] self.rows@[i])@.len() == self.cols
    }

    /// Number of columns; it holds even when there is no row.
    pub closed spec fn width(&self) -> nat {
        self.cols as nat
    }

    /// `self` has `rows` rows of `cols` entries.
    pub open spec fn has_shape(&self, rows: nat, cols: nat) -> bool {
        &&& self@.len() == rows
        &&& self.width() == cols
        &&& rows_have_width(self@, cols)
    }
}

impl<T: Copy> Clone for Matrix<T> {
    fn clone(&self) -> (r: Self)
        ensures
            r@ == self@,
            r.width() == self.width(),
    {
        proof {
            use_type_invariant(self);
        }
        let rows = self.to_rows();
        proof {
            assert forall|i: int| 0 <= i < rows@.len() implies (#[trigger] rows@[i])@.len()
                == self.cols by {
                assert(rows@.map_values(|r: Vec<T>| r@).len() == rows@.len());
                assert(self@.len() == self.rows@.len());
                assert(rows@.map_values(|r: Vec<T>| r@)[i] == rows@[i]@);
                assert(self@[i] == self.rows@[i]@);
            }
        }
        Matrix { rows, cols: self.cols }
    }
}

impl<T: Copy> Matrix<T> {
    /// A `rows` by `cols` matrix whose every entry is `value`.
    pub fn filled(rows: usize, cols: usize, value: T) -> (r: Self)
        ensures
            r@ == filled_rows(rows as nat, cols as nat, value),
            r.has_shape(rows as nat, cols as nat),
    {
        let mut out: Vec<Vec<T>> = Vec::new();
        let mut i: usize = 0;
        while i < rows
            invariant
                0 <= i <= rows,
                out@.len() == i,
                forall|k: int|
                    0 <= k < i ==> (#[trigger] out@[k])@ == Seq::new(cols as nat, |_j: int| value),
            decreases rows - i,
        {
            let mut row: Vec<T> = Vec::new();
            let mut j: usize = 0;
            while j < cols
                invariant
                    0 <= j <= cols,
                    row@ == Seq::new(j as nat, |_j: int| value),
                decreases cols - j,
            {
                row.push(value);
                j = j + 1;
                assert(row@ =~= Seq::new(j as nat, |_j: int| value));
            }
            out.push(row);
            i = i + 1;
        }
        let r = Matrix { rows: out, cols };
        assert(r@ =~= filled_rows(rows as nat, cols as nat, value));
        r
    }

    /// The matrix whose rows are `rows`, each of which must have `cols` entries.
    pub fn from_rows(rows: Vec<Vec<T>>, cols: usize) -> (r: Option<Self>)
        ensures
            r is Some <==> (forall|i: int| 0 <= i < rows@.len() ==> (#[trigger] rows@[i])@.len() == cols),
            r matches Some(m) ==> m@ == rows@.map_values(|r: Vec<T>| r@) && m.has_shape(
                rows@.len(),
                cols as nat,
            ),
    {
        let mut i: usize = 0;
        while i < rows.len()
            invariant
                0 <= i <= rows@.len(),
                forall|k: int| 0 <= k < i ==> (#[trigger] rows@[k])@.len() == cols,
            decreases rows@.len() - i,
        {
            if rows[i].len() != cols {
                return None;
            }
            i = i + 1;
        }
        Some(Matrix { rows, cols })
    }

    /// Number of rows.
    pub fn num_rows(&self) -> (r: usize)
        ensures
            r == self@.len(),
            self.has_shape(r as nat, self.width()),
    {
        proof {
            use_type_invariant(self);
        }
        self.rows.len()
    }

    /// Number of columns.
    pub fn num_cols(&self) -> (r: usize)
        ensures
            r == self.width(),
            self.has_shape(self@.len(), r as nat),
    {
        proof {
            use_type_invariant(self);
        }
        self.cols
    }

    /// The entry in row `i` and column `j`.
    pub fn get(&self, i: usize, j: usize) -> (r: T)
        requires
            i < self@.len(),
            j < self.width(),
        ensures
            r == self@[i as int][j as int],
    {
        proof {
            use_type_invariant(self);
        }
        self.rows[i][j]
    }

    /// Row `i`.
    pub fn row(&self, i: usize) -> (r: &Vec<T>)
        requires
            i < self@.len(),
        ensures
            r@ == self@[i as int],
    {
        &self.rows[i]
    }

    /// The rows, first to last.
    pub fn into_rows(self) -> (r: Vec<Vec<T>>)
        ensures
            r@.map_values(|r: Vec<T>| r@) == self@,
            rows_have_width(self@, self.width()),
    {
        proof {
            use_type_invariant(&self);
        }
        self.rows
    }

    /// A copy of the rows, first to last.
    pub fn to_rows(&self) -> (r: Vec<Vec<T>>)
        ensures
            r@.map_values(|r: Vec<T>| r@) == self@,
    {
        let mut out: Vec<Vec<T>> = Vec::new();
        let mut i: usize = 0;
        while i < self.rows.len()
            invariant
                0 <= i <= self.rows@.len(),
                out@.len() == i,
                forall|m: int| 0 <= m < i ==> (#[trigger] out@[m])@ == self.rows@[m]@,
            decreases self.rows@.len() - i,
        {
            let src = &self.rows[i];
            let mut row: Vec<T> = Vec::new();
            let mut j: usize = 0;
            while j < src.len()
                invariant
                    0 <= j <= src@.len(),
                    row@ == src@.take(j as int),
                decreases src@.len() - j,
            {
                row.push(src[j]);
                j = j + 1;
                assert(row@ =~= src@.take(j as int));
            }
            assert(src@.take(src@.len() as int) =~= src@);
            out.push(row);
            i = i + 1;
        }
        assert(out@.map_values(|r: Vec<T>| r@) =~= self@);
        out
    }

    /// The first `k` columns.
    pub fn take_columns(&self, k: usize) -> (r: Self)
        requires
            k <= self.width(),
        ensures
            r@ == Seq::new(self@.len(), |i: int| self@[i].take(k as int)),
            r.has_shape(self@.len(), k as nat),
    {
        proof {
            use_type_invariant(self);
        }
        let mut out: Vec<Vec<T>> = Vec::new();
        let mut i: usize = 0;
        while i < self.rows.len()
            invariant
                0 <= i <= self@.len(),
                self@.len() == self.rows@.len(),
                k <= self.cols,
                forall|m: int| 0 <= m < self.rows@.len() ==> (#[trigger] self.rows@[m])@.len() == self.cols,
                out@.len() == i,
                forall|m: int| 0 <= m < i ==> (#[trigger] out@[m])@ == self@[m].take(k as int),
            decreases self@.len() - i,
        {
            let src = &self.rows[i];
            let mut row: Vec<T> = Vec::new();
            let mut j: usize = 0;
            while j < k
                invariant
                    0 <= j <= k,
                    k <= src@.len(),
                    row@ == src@.take(j as int),
                decreases k - j,
            {
                row.push(src[j]);
                j = j + 1;
                assert(row@ =~= src@.take(j as int));
            }
            out.push(row);
            i = i + 1;
        }
        let r = Matrix { rows: out, cols: k };
        assert(r@ =~= Seq::new(self@.len(), |i: int| self@[i].take(k as int)));
        r
    }

    /// Each row extended with `fill` up to `width` columns.
    pub fn pad_columns(&self, width: usize, fill: T) -> (r: Self)
        requires
            self.width() <= width,
        ensures
            r@ == Seq::new(self@.len(), |i: int| pad_row(self@[i], width as nat, fill)),
            r.has_shape(self@.len(), width as nat),
    {
        proof {
            use_type_invariant(self);
        }
        let mut out: Vec<Vec<T>> = Vec::new();
        let mut i: usize = 0;
        while i < self.rows.len()
            invariant
                0 <= i <= self@.len(),
                self@.len() == self.rows@.len(),
                self.cols <= width,
                forall|m: int| 0 <= m < self.rows@.len() ==> (#[trigger] self.rows@[m])@.len() == self.cols,
                out@.len() == i,
                forall|m: int|
                    0 <= m < i ==> (#[trigger] out@[m])@ == pad_row(self@[m], width as nat, fill),
            decreases self@.len() - i,
        {
            let src = &self.rows[i];
            let mut row: Vec<T> = Vec::new();
            let mut j: usize = 0;
            while j < width
                invariant
                    0 <= j <= width,
                    src@.len() <= width,
                    row@ == pad_row(src@, width as nat, fill).take(j as int),
                decreases width - j,
            {
                if j < src.len() {
                    row.push(src[j]);
                } else {
                    row.push(fill);
                }
                j = j + 1;
                assert(row@ =~= pad_row(src@, width as nat, fill).take(j as int));
            }
            assert(row@ =~= pad_row(src@, width as nat, fill));
            out.push(row);
            i = i + 1;
        }
        let r = Matrix { rows: out, cols: width };
        assert(r@ =~= Seq::new(self@.len(), |i: int| pad_row(self@[i], width as nat, fill)));
        r
    }

    /// Rows of `self` followed by the matching rows of `other`.
    pub fn concat_columns(&self, other: &Self) -> (r: Self)
        requires
            self@.len() == other@.len(),
            self.width() + other.width() <= usize::MAX,
        ensures
            r@ == Seq::new(self@.len(), |i: int| self@[i] + other@[i]),
            r.has_shape(self@.len(), self.width() + other.width()),
    {
        proof {
            use_type_invariant(self);
            use_type_invariant(other);
        }
        let mut out: Vec<Vec<T>> = Vec::new();
        let mut i: usize = 0;
        while i < self.rows.len()
            invariant
                0 <= i <= self@.len(),
                self@.len() == self.rows@.len(),
                other@.len() == other.rows@.len(),
                self@.len() == other@.len(),
                forall|m: int| 0 <= m < self.rows@.len() ==> (#[trigger] self.rows@[m])@.len() == self.cols,
                forall|m: int| 0 <= m < other.rows@.len() ==> (#[trigger] other.rows@[m])@.len() == other.cols,
                out@.len() == i,
                forall|m: int| 0 <= m < i ==> (#[trigger] out@[m])@ == self@[m] + other@[m],
            decreases self@.len() - i,
        {
            let left = &self.rows[i];
            let right = &other.rows[i];
            let mut row: Vec<T> = Vec::new();
            let mut j: usize = 0;
            while j < left.len()
                invariant
                    0 <= j <= left@.len(),
                    row@ == left@.take(j as int),
                decreases left@.len() - j,
            {
                row.push(left[j]);
                j = j + 1;
                assert(row@ =~= left@.take(j as int));
            }
            let mut j: usize = 0;
            assert(left@.take(left@.len() as int) =~= left@);
            while j < right.len()
                invariant
                    0 <= j <= right@.len(),
                    row@ == left@ + right@.take(j as int),
                decreases right@.len() - j,
            {
                row.push(right[j]);
                j = j + 1;
                assert(row@ =~= left@ + right@.take(j as int));
            }
            assert(right@.take(right@.len() as int) =~= right@);
            out.push(row);
            i = i + 1;
        }
        let r = Matrix { rows: out, cols: self.cols + other.cols };
        assert(r@ =~= Seq::new(self@.len(), |i: int| self@[i] + other@[i]));
        r
    }
}

} // verus!
