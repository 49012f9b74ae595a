use vstd::prelude::*;
use crate::scalar::{apply, display, lawful, floats_of, Answer, FloatOp, Floats, Query, Scalar};

verus! {

/// A matrix as rows of entries.
pub type Grid = Seq<Seq<Scalar>>;

/// At least one row, at least one column, and every row as long as the
/// first.
pub open spec fn grid_wf(g: Grid) -> bool {
    &&& g.len() >= 1
    &&& g[0].len() >= 1
    &&& forall|i: int| 0 <= i < g.len() ==> (#[trigger] g[i]).len() == g[0].len()
}

/// The rows of a vector of vectors.
pub open spec fn grid_of(elem: Seq<Vec<Scalar>>) -> Grid {
    elem.map_values(|row: Vec<Scalar>| row@)
}

/// Each entry of `g` combined with `s` by `op`, with `s` as the left
/// operand if `scalar_first` and as the right operand otherwise.
pub open spec fn grid_with_scalar(
    fl: Floats,
    g: Grid,
    op: FloatOp,
    s: Scalar,
    scalar_first: bool,
) -> Grid {
    Seq::new(
        g.len(),
        |i: int|
            Seq::new(
                g[i].len(),
                |j: int|
                    if scalar_first {
                        (fl.apply)(op, s, g[i][j])
                    } else {
                        (fl.apply)(op, g[i][j], s)
                    },
            ),
    )
}

/// The entries of `a` and `b` that share a place, combined by `op`.
pub open spec fn grid_pairwise(fl: Floats, a: Grid, b: Grid, op: FloatOp) -> Grid {
    Seq::new(a.len(), |i: int| Seq::new(a[i].len(), |j: int| (fl.apply)(op, a[i][j], b[i][j])))
}

/// Each entry with its sign flipped.
pub open spec fn grid_negated(g: Grid) -> Grid {
    Seq::new(g.len(), |i: int| Seq::new(g[i].len(), |j: int| g[i][j].negated()))
}

/// The sum of the first `k` products of row `m` of `a` with column `n` of
/// `b`, added up from `0.0` in order.
pub open spec fn dot(fl: Floats, a: Grid, b: Grid, m: int, n: int, k: nat) -> Scalar
    decreases k,
{
    if k == 0 {
        Scalar { bits: 0 }
    } else {
        (fl.apply)(
            FloatOp::Add,
            dot(fl, a, b, m, n, (k - 1) as nat),
            (fl.apply)(FloatOp::Mul, a[m][k - 1], b[k - 1][n]),
        )
    }
}

/// The matrix product of `a` and `b`.
pub open spec fn grid_product(fl: Floats, a: Grid, b: Grid) -> Grid {
    Seq::new(a.len(), |m: int| Seq::new(b[0].len(), |n: int| dot(fl, a, b, m, n, a[0].len())))
}

/// The first entry of `row` from position `j` on that is infinite or NaN.
pub open spec fn first_bad_in_row(row: Seq<Scalar>, j: int) -> Option<Scalar>
    decreases row.len() - j,
{
    if j < 0 || j >= row.len() {
        None
    } else if !row[j].finite() {
        Some(row[j])
    } else {
        first_bad_in_row(row, j + 1)
    }
}

/// The first entry of `g` from row `i` on, row by row, that is infinite or
/// NaN.
pub open spec fn first_bad(g: Grid, i: int) -> Option<Scalar>
    decreases g.len() - i,
{
    if i < 0 || i >= g.len() {
        None
    } else {
        match first_bad_in_row(g[i], 0) {
            Some(x) => Some(x),
            None => first_bad(g, i + 1),
        }
    }
}

/// The first `n` entries of `row`, each written by `fl` between `before`
/// and `after`, with `sep` between neighbours.
pub open spec fn joined_entries(
    fl: Floats,
    row: Seq<Scalar>,
    n: nat,
    before: Seq<char>,
    after: Seq<char>,
    sep: Seq<char>,
) -> Seq<char>
    decreases n,
{
    if n == 0 {
        Seq::empty()
    } else if n == 1 {
        before + (fl.display)(row[0]) + after
    } else {
        joined_entries(fl, row, (n - 1) as nat, before, after, sep) + sep + before + (fl.display)(
            row[n - 1],
        ) + after
    }
}

/// A row in the one-line form: `[a,b,c]`.
pub open spec fn row_text(fl: Floats, row: Seq<Scalar>) -> Seq<char> {
    "["@ + joined_entries(fl, row, row.len(), Seq::empty(), Seq::empty(), ","@) + "]"@
}

/// A row in the displayed form: two spaces, then `[ a , b , c ]`.
pub open spec fn rich_row_text(fl: Floats, row: Seq<Scalar>) -> Seq<char> {
    "  ["@ + joined_entries(fl, row, row.len(), " "@, " "@, ","@) + "]"@
}

/// The first `n` rows in the one-line form, with `;` between them.
pub open spec fn joined_rows(fl: Floats, g: Grid, n: nat) -> Seq<char>
    decreases n,
{
    if n == 0 {
        Seq::empty()
    } else if n == 1 {
        row_text(fl, g[0])
    } else {
        joined_rows(fl, g, (n - 1) as nat) + ";"@ + row_text(fl, g[n - 1])
    }
}

/// The first `n` rows in the displayed form, one per line.
pub open spec fn joined_rich_rows(fl: Floats, g: Grid, n: nat) -> Seq<char>
    decreases n,
{
    if n == 0 {
        Seq::empty()
    } else if n == 1 {
        rich_row_text(fl, g[0])
    } else {
        joined_rich_rows(fl, g, (n - 1) as nat) + "\n"@ + rich_row_text(fl, g[n - 1])
    }
}

/// A matrix on one line: `[[a,b];[c,d]]`.
pub open spec fn grid_text(fl: Floats, g: Grid) -> Seq<char> {
    "["@ + joined_rows(fl, g, g.len()) + "]"@
}

/// A matrix as it is displayed, one bracketed row per line.
pub open spec fn grid_rich_text(fl: Floats, g: Grid) -> Seq<char> {
    joined_rich_rows(fl, g, g.len())
}

/// The message for a result that is infinite or NaN.
pub open spec fn not_finite_message(fl: Floats, x: Scalar) -> Seq<char> {
    "The calculation resulted in '"@ + (fl.display)(x) + "'."@
}

/// A real matrix in row-major order.
#[derive(Debug, PartialEq)]
pub struct Matrix {
    pub elem: Vec<Vec<Scalar>>,
    pub size: (usize, usize),
}

impl View for Matrix {
    type V = Grid;

    open spec fn view(&self) -> Grid {
        grid_of(self.elem@)
    }
}

impl Matrix {
    /// The recorded size is the size of the rows held, and the rows form a
    /// matrix.
    pub open spec fn wf(&self) -> bool {
        &&& grid_wf(self@)
        &&& self.size.0 == self@.len()
        &&& self.size.1 == self@[0].len()
    }

    /// The matrix with the given rows; `None` if there is no row, the rows
    /// are empty, or they differ in length.
    pub fn from_vec(elem: Vec<Vec<Scalar>>) -> (res: Option<Matrix>)
        ensures
            grid_wf(grid_of(elem@)) ==> res is Some && res->Some_0@ == grid_of(elem@)
                && res->Some_0.wf(),
            !grid_wf(grid_of(elem@)) ==> res is None,
    {
        let rows = elem.len();
        if rows == 0 {
            return None;
        }
        let cols = elem[0].len();
        if cols == 0 {
            return None;
        }
        let ghost g = grid_of(elem@);
        let mut i: usize = 0;
        while i < rows
            invariant
                rows == elem.len(),
                cols == elem[0].len(),
                g == grid_of(elem@),
                0 <= i <= rows,
                forall|k: int| 0 <= k < i ==> (#[trigger] g[k]).len() == cols,
            decreases rows - i,
        {
            if elem[i].len() != cols {
                assert(g[i as int].len() != g[0].len());
                return None;
            }
            i += 1;
        }
        Some(Matrix { elem, size: (rows, cols) })
    }

    /// The entry at `(row, col)`, if there is one.
    pub fn at(&self, row: usize, col: usize) -> (entry: Option<Scalar>)
        requires
            self.wf(),
        ensures
            row < self@.len() && col < self@[0].len() ==> entry == Some(self@[row as int][col as int]),
            !(row < self@.len() && col < self@[0].len()) ==> entry is None,
    {
        if row >= self.size.0 || col >= self.size.1 {
            None
        } else {
            assert(self@[row as int] == self.elem@[row as int]@);
            Some(self.elem[row][col])
        }
    }

    /// Rows and columns.
    pub fn size(&self) -> (size: &(usize, usize))
        ensures
            *size == self.size,
    {
        &self.size
    }

    /// A mutable reference to the entry at `(row, col)`, if there is one.
    pub fn at_mut(&mut self, row: usize, col: usize) -> (entry: Option<&mut Scalar>)
        requires
            old(self).wf(),
        ensures
            !(row < old(self)@.len() && col < old(self)@[0].len()) ==> entry is None && *final(self)
                == *old(self),
            row < old(self)@.len() && col < old(self)@[0].len() ==> entry is Some
                && *entry->Some_0 == old(self)@[row as int][col as int] && final(self).size == old(
                self,
            ).size && final(self)@ == old(self)@.update(
                row as int,
                old(self)@[row as int].update(col as int, *final(entry->Some_0)),
            ),
    {
        if row >= self.size.0 || col >= self.size.1 {
            None
        } else {
            assert(self@[row as int] == self.elem@[row as int]@);
            Some(&mut self.elem[row][col])
        }
    }

    /// `Ok` when every entry is finite; otherwise the message for the first
    /// entry, row by row, that is not.
    pub fn checked_value<F: Fn(Query) -> Answer>(&self, fl: &F) -> (res: Result<&Matrix, String>)
        requires
            self.wf(),
            lawful(fl),
        ensures
            match first_bad(self@, 0) {
                None => res == Ok::<&Matrix, String>(self),
                Some(x) => res is Err && res->Err_0@ == not_finite_message(floats_of(fl), x),
            },
    {
        let mut m: usize = 0;
        while m < self.size.0
            invariant
                self.wf(),
                lawful(fl),
                0 <= m <= self.size.0,
                first_bad(self@, 0) == first_bad(self@, m as int),
            decreases self.size.0 - m,
        {
            let mut n: usize = 0;
            assert(self@[m as int] == self.elem@[m as int]@);
            while n < self.size.1
                invariant
                    self.wf(),
                    lawful(fl),
                    m < self.size.0,
                    self@[m as int] == self.elem@[m as int]@,
                    0 <= n <= self.size.1,
                    first_bad(self@, 0) == first_bad(self@, m as int),
                    first_bad_in_row(self@[m as int], 0) == first_bad_in_row(
                        self@[m as int],
                        n as int,
                    ),
                decreases self.size.1 - n,
            {
                if !self.elem[m][n].is_finite() {
                    return Err(not_finite(fl, self.elem[m][n]));
                }
                n += 1;
            }
            m += 1;
        }
        Ok(self)
    }

    /// The matrix on one line: `[[a,b];[c,d]]`.
    pub fn to_string<F: Fn(Query) -> Answer>(&self, fl: &F) -> (text: String)
        requires
            self.wf(),
            lawful(fl),
        ensures
            text@ == grid_text(floats_of(fl), self@),
    {
        let mut text = String::from_str("[");
        let mut m: usize = 0;
        let ghost f = floats_of(fl);
        while m < self.size.0
            invariant
                self.wf(),
                lawful(fl),
                f == floats_of(fl),
                0 <= m <= self.size.0,
                text@ == "["@ + joined_rows(f, self@, m as nat),
            decreases self.size.0 - m,
        {
            let ghost start = text@;
            if m > 0 {
                text.append(";");
            }
            text.append("[");
            let ghost head = text@;
            let mut n: usize = 0;
            assert(self@[m as int] == self.elem@[m as int]@);
            while n < self.size.1
                invariant
                    self.wf(),
                    lawful(fl),
                    f == floats_of(fl),
                    m < self.size.0,
                    self@[m as int] == self.elem@[m as int]@,
                    0 <= n <= self.size.1,
                    text@ == head + joined_entries(
                        f,
                        self@[m as int],
                        n as nat,
                        Seq::empty(),
                        Seq::empty(),
                        ","@,
                    ),
                decreases self.size.1 - n,
            {
                let ghost prev = text@;
                if n > 0 {
                    text.append(",");
                }
                let d = display(fl, self.elem[m][n]);
                text.append(d.as_str());
                n += 1;
                proof {
                    let row = self@[m as int];
                    let e = Seq::<char>::empty();
                    if n == 1 {
                        assert(joined_entries(f, row, 0, e, e, ","@) =~= e);
                        assert(text@ =~= head + joined_entries(f, row, 1, e, e, ","@));
                    } else {
                        assert(text@ =~= head + joined_entries(f, row, n as nat, e, e, ","@));
                    }
                }
            }
            text.append("]");
            m += 1;
            proof {
                if m == 1 {
                    assert(joined_rows(f, self@, 0) =~= Seq::<char>::empty());
                    assert(text@ =~= "["@ + joined_rows(f, self@, 1));
                } else {
                    assert(text@ =~= "["@ + joined_rows(f, self@, m as nat));
                }
            }
        }
        text.append("]");
        text
    }

    /// The matrix as it is displayed: one line per row, each of the form
    /// `  [ a , b , c ]`.
    pub fn to_string_rich<F: Fn(Query) -> Answer>(&self, fl: &F) -> (text: String)
        requires
            self.wf(),
            lawful(fl),
        ensures
            text@ == grid_rich_text(floats_of(fl), self@),
    {
        let mut text = String::new();
        let mut m: usize = 0;
        let ghost f = floats_of(fl);
        while m < self.size.0
            invariant
                self.wf(),
                lawful(fl),
                f == floats_of(fl),
                0 <= m <= self.size.0,
                text@ == joined_rich_rows(f, self@, m as nat),
            decreases self.size.0 - m,
        {
            if m > 0 {
                text.append("\n");
            }
            text.append("  [");
            let ghost head = text@;
            let mut n: usize = 0;
            assert(self@[m as int] == self.elem@[m as int]@);
            while n < self.size.1
                invariant
                    self.wf(),
                    lawful(fl),
                    f == floats_of(fl),
                    m < self.size.0,
                    self@[m as int] == self.elem@[m as int]@,
                    0 <= n <= self.size.1,
                    text@ == head + joined_entries(f, self@[m as int], n as nat, " "@, " "@, ","@),
                decreases self.size.1 - n,
            {
                if n > 0 {
                    text.append(",");
                }
                text.append(" ");
                let d = display(fl, self.elem[m][n]);
                text.append(d.as_str());
                text.append(" ");
                n += 1;
                proof {
                    let row = self@[m as int];
                    if n == 1 {
                        assert(joined_entries(f, row, 0, " "@, " "@, ","@) =~= Seq::<char>::empty());
                        assert(text@ =~= head + joined_entries(f, row, 1, " "@, " "@, ","@));
                    } else {
                        assert(text@ =~= head + joined_entries(f, row, n as nat, " "@, " "@, ","@));
                    }
                }
            }
            text.append("]");
            m += 1;
            proof {
                if m == 1 {
                    assert(joined_rich_rows(f, self@, 0) =~= Seq::<char>::empty());
                    assert(text@ =~= joined_rich_rows(f, self@, 1));
                } else {
                    assert(text@ =~= joined_rich_rows(f, self@, m as nat));
                }
            }
        }
        text
    }

    /// The matrix product with `rhs`; `None` unless `self` has as many
    /// columns as `rhs` has rows.
    pub fn matrix_mul<F: Fn(Query) -> Answer>(&self, rhs: &Matrix, fl: &F) -> (res: Option<Matrix>)
        requires
            self.wf(),
            rhs.wf(),
            lawful(fl),
        ensures
            self@[0].len() == rhs@.len() <==> res is Some,
            res matches Some(out) ==> out.wf() && out@ == grid_product(floats_of(fl), self@, rhs@),
    {
        if self.size.1 != rhs.size.0 {
            return None;
        }
        let ghost f = floats_of(fl);
        let ghost want = grid_product(f, self@, rhs@);
        let mut vec: Vec<Vec<Scalar>> = Vec::new();
        let mut m: usize = 0;
        while m < self.size.0
            invariant
                self.wf(),
                rhs.wf(),
                lawful(fl),
                f == floats_of(fl),
                want == grid_product(f, self@, rhs@),
                self.size.1 == rhs.size.0,
                0 <= m <= self.size.0,
                vec@.len() == m,
                forall|i: int| 0 <= i < m ==> (#[trigger] vec@[i])@ == want[i],
            decreases self.size.0 - m,
        {
            let mut row: Vec<Scalar> = Vec::new();
            let mut n: usize = 0;
            assert(self@[m as int] == self.elem@[m as int]@);
            while n < rhs.size.1
                invariant
                    self.wf(),
                    rhs.wf(),
                    lawful(fl),
                    f == floats_of(fl),
                    self.size.1 == rhs.size.0,
                    m < self.size.0,
                    self@[m as int] == self.elem@[m as int]@,
                    0 <= n <= rhs.size.1,
                    row@.len() == n,
                    forall|j: int|
                        0 <= j < n ==> #[trigger] row@[j] == dot(
                            f,
                            self@,
                            rhs@,
                            m as int,
                            j,
                            self.size.1 as nat,
                        ),
                decreases rhs.size.1 - n,
            {
                let mut acc = Scalar::zero_value();
                let mut k: usize = 0;
                while k < self.size.1
                    invariant
                        self.wf(),
                        rhs.wf(),
                        lawful(fl),
                        f == floats_of(fl),
                        self.size.1 == rhs.size.0,
                        m < self.size.0,
                        n < rhs.size.1,
                        self@[m as int] == self.elem@[m as int]@,
                        0 <= k <= self.size.1,
                        acc == dot(f, self@, rhs@, m as int, n as int, k as nat),
                    decreases self.size.1 - k,
                {
                    assert(rhs@[k as int] == rhs.elem@[k as int]@);
                    let p = apply(fl, FloatOp::Mul, self.elem[m][k], rhs.elem[k][n]);
                    acc = apply(fl, FloatOp::Add, acc, p);
                    k += 1;
                }
                row.push(acc);
                n += 1;
            }
            assert(row@ =~= want[m as int]);
            vec.push(row);
            m += 1;
        }
        let res = Matrix { elem: vec, size: (self.size.0, rhs.size.1) };
        proof {
            assert forall|i: int| 0 <= i < res@.len() implies #[trigger] res@[i] == want[i] by {
                assert(res@[i] == res.elem@[i]@);
            }
            assert(res@ =~= want);
        }
        Some(res)
    }

    /// The matrix of `apply_fn` of each entry.
    pub fn apply_all_terms_float<F>(&self, apply_fn: F) -> (res: Matrix) where
        F: Fn(&Scalar) -> Scalar,

        requires
            self.wf(),
            forall|x: &Scalar| #[trigger] apply_fn.requires((x,)),
        ensures
            res.wf(),
            res@.len() == self@.len(),
            res@[0].len() == self@[0].len(),
            forall|i: int, j: int|
                0 <= i < self@.len() && 0 <= j < self@[0].len() ==> apply_fn.ensures(
                    (&self@[i][j],),
                    #[trigger] res@[i][j],
                ),
    {
        let mut vec: Vec<Vec<Scalar>> = Vec::new();
        let mut m: usize = 0;
        while m < self.size.0
            invariant
                self.wf(),
                forall|x: &Scalar| #[trigger] apply_fn.requires((x,)),
                0 <= m <= self.size.0,
                vec@.len() == m,
                forall|i: int| 0 <= i < m ==> (#[trigger] vec@[i])@.len() == self.size.1,
                forall|i: int, j: int|
                    0 <= i < m && 0 <= j < self.size.1 ==> apply_fn.ensures(
                        (&self@[i][j],),
                        #[trigger] vec@[i]@[j],
                    ),
            decreases self.size.0 - m,
        {
            let mut row: Vec<Scalar> = Vec::new();
            let mut n: usize = 0;
            assert(self@[m as int] == self.elem@[m as int]@);
            while n < self.size.1
                invariant
                    self.wf(),
                    forall|x: &Scalar| #[trigger] apply_fn.requires((x,)),
                    m < self.size.0,
                    self@[m as int] == self.elem@[m as int]@,
                    0 <= n <= self.size.1,
                    row@.len() == n,
                    forall|j: int|
                        0 <= j < n ==> apply_fn.ensures((&self@[m as int][j],), #[trigger] row@[j]),
                decreases self.size.1 - n,
            {
                let y = apply_fn(&self.elem[m][n]);
                row.push(y);
                n += 1;
            }
            vec.push(row);
            m += 1;
        }
        let res = Matrix { elem: vec, size: self.size };
        proof {
            assert(res@.len() == self@.len());
            assert forall|i: int| 0 <= i < res@.len() implies (#[trigger] res@[i]).len()
                == self.size.1 by {
                assert(res@[i] == res.elem@[i]@);
            }
            assert forall|i: int, j: int|
                0 <= i < self@.len() && 0 <= j < self@[0].len() implies apply_fn.ensures(
                (&self@[i][j],),
                #[trigger] res@[i][j],
            ) by {
                assert(res@[i] == res.elem@[i]@);
            }
        }
        res
    }

    /// The matrix of `apply_fn` of each pair of entries that share a place;
    /// `None` when the sizes differ.
    pub fn apply_all_terms_matrix<F>(&self, rhs: &Matrix, apply_fn: F) -> (res: Option<
        Matrix,
    >) where F: Fn(&Scalar, &Scalar) -> Scalar
        requires
            self.wf(),
            rhs.wf(),
            forall|x: &Scalar, y: &Scalar| #[trigger] apply_fn.requires((x, y)),
        ensures
            same_size(self@, rhs@) <==> res is Some,
            res matches Some(out) ==> {
                &&& out.wf()
                &&& same_size(out@, self@)
                &&& forall|i: int, j: int|
                    0 <= i < self@.len() && 0 <= j < self@[0].len() ==> apply_fn.ensures(
                        (&self@[i][j], &rhs@[i][j]),
                        #[trigger] out@[i][j],
                    )
            },
    {
        if self.size.0 != rhs.size.0 || self.size.1 != rhs.size.1 {
            return None;
        }
        let mut vec: Vec<Vec<Scalar>> = Vec::new();
        let mut m: usize = 0;
        while m < self.size.0
            invariant
                self.wf(),
                rhs.wf(),
                self.size == rhs.size,
                forall|x: &Scalar, y: &Scalar| #[trigger] apply_fn.requires((x, y)),
                0 <= m <= self.size.0,
                vec@.len() == m,
                forall|i: int| 0 <= i < m ==> (#[trigger] vec@[i])@.len() == self.size.1,
                forall|i: int, j: int|
                    0 <= i < m && 0 <= j < self.size.1 ==> apply_fn.ensures(
                        (&self@[i][j], &rhs@[i][j]),
                        #[trigger] vec@[i]@[j],
                    ),
            decreases self.size.0 - m,
        {
            let mut row: Vec<Scalar> = Vec::new();
            let mut n: usize = 0;
            assert(self@[m as int] == self.elem@[m as int]@);
            assert(rhs@[m as int] == rhs.elem@[m as int]@);
            while n < self.size.1
                invariant
                    self.wf(),
                    rhs.wf(),
                    self.size == rhs.size,
                    forall|x: &Scalar, y: &Scalar| #[trigger] apply_fn.requires((x, y)),
                    m < self.size.0,
                    self@[m as int] == self.elem@[m as int]@,
                    rhs@[m as int] == rhs.elem@[m as int]@,
                    0 <= n <= self.size.1,
                    row@.len() == n,
                    forall|j: int|
                        0 <= j < n ==> apply_fn.ensures(
                            (&self@[m as int][j], &rhs@[m as int][j]),
                            #[trigger] row@[j],
                        ),
                decreases self.size.1 - n,
            {
                let y = apply_fn(&self.elem[m][n], &rhs.elem[m][n]);
                row.push(y);
                n += 1;
            }
            vec.push(row);
            m += 1;
        }
        let res = Matrix { elem: vec, size: self.size };
        proof {
            assert(res@.len() == self@.len());
            assert forall|i: int| 0 <= i < res@.len() implies (#[trigger] res@[i]).len()
                == self.size.1 by {
                assert(res@[i] == res.elem@[i]@);
            }
            assert forall|i: int, j: int|
                0 <= i < self@.len() && 0 <= j < self@[0].len() implies apply_fn.ensures(
                (&self@[i][j], &rhs@[i][j]),
                #[trigger] res@[i][j],
            ) by {
                assert(res@[i] == res.elem@[i]@);
            }
        }
        Some(res)
    }
}

impl Matrix {
    /// Each entry combined with `s` by `op`.
    pub fn with_scalar<F: Fn(Query) -> Answer>(
        &self,
        fl: &F,
        op: FloatOp,
        s: Scalar,
        scalar_first: bool,
    ) -> (res: Matrix)
        requires
            self.wf(),
            lawful(fl),
        ensures
            res.wf(),
            res@ == grid_with_scalar(floats_of(fl), self@, op, s, scalar_first),
    {
        let ghost f = floats_of(fl);
        let each = |x: &Scalar| -> (y: Scalar)
            ensures
                y == if scalar_first {
                    (f.apply)(op, s, *x)
                } else {
                    (f.apply)(op, *x, s)
                },
            {
                if scalar_first {
                    apply(fl, op, s, *x)
                } else {
                    apply(fl, op, *x, s)
                }
            };
        let res = self.apply_all_terms_float(each);
        proof {
            let want = grid_with_scalar(f, self@, op, s, scalar_first);
            assert forall|i: int| 0 <= i < res@.len() implies #[trigger] res@[i] =~= want[i] by {
                assert forall|j: int| 0 <= j < res@[i].len() implies res@[i][j] == want[i][j] by {
                    assert(each.ensures((&self@[i][j],), res@[i][j]));
                }
            }
            assert(res@ =~= want);
        }
        res
    }

    /// The entries of `self` and `rhs` that share a place, combined by `op`;
    /// `None` when the sizes differ.
    pub fn pairwise<F: Fn(Query) -> Answer>(&self, rhs: &Matrix, fl: &F, op: FloatOp) -> (res:
        Option<Matrix>)
        requires
            self.wf(),
            rhs.wf(),
            lawful(fl),
        ensures
            same_size(self@, rhs@) <==> res is Some,
            res matches Some(out) ==> out.wf() && out@ == grid_pairwise(
                floats_of(fl),
                self@,
                rhs@,
                op,
            ),
    {
        let ghost f = floats_of(fl);
        let each = |x: &Scalar, y: &Scalar| -> (z: Scalar)
            ensures
                z == (f.apply)(op, *x, *y),
            { apply(fl, op, *x, *y) };
        let res = self.apply_all_terms_matrix(rhs, each);
        proof {
            if res is Some {
                let out = res->Some_0;
                let want = grid_pairwise(f, self@, rhs@, op);
                assert forall|i: int| 0 <= i < out@.len() implies #[trigger] out@[i] =~= want[i] by {
                    assert forall|j: int| 0 <= j < out@[i].len() implies out@[i][j]
                        == want[i][j] by {
                        assert(each.ensures((&self@[i][j], &rhs@[i][j]), out@[i][j]));
                    }
                }
                assert(out@ =~= want);
            }
        }
        res
    }

    /// Each entry with its sign flipped.
    pub fn negated(&self) -> (res: Matrix)
        requires
            self.wf(),
        ensures
            res.wf(),
            res@ == grid_negated(self@),
    {
        let each = |x: &Scalar| -> (y: Scalar)
            ensures
                y == x.negated(),
            { x.neg() };
        let res = self.apply_all_terms_float(each);
        proof {
            let want = grid_negated(self@);
            assert forall|i: int| 0 <= i < res@.len() implies #[trigger] res@[i] =~= want[i] by {
                assert forall|j: int| 0 <= j < res@[i].len() implies res@[i][j] == want[i][j] by {
                    assert(each.ensures((&self@[i][j],), res@[i][j]));
                }
            }
            assert(res@ =~= want);
        }
        res
    }
}

/// The message for a result that is infinite or NaN.
pub fn not_finite<F: Fn(Query) -> Answer>(fl: &F, x: Scalar) -> (text: String)
    requires
        lawful(fl),
    ensures
        text@ == not_finite_message(floats_of(fl), x),
{
    let mut text = String::from_str("The calculation resulted in '");
    let d = display(fl, x);
    text.append(d.as_str());
    text.append("'.");
    text
}

/// A copy of a row.
pub fn copy_row(row: &Vec<Scalar>) -> (res: Vec<Scalar>)
    ensures
        res@ == row@,
{
    let mut res: Vec<Scalar> = Vec::new();
    let mut j: usize = 0;
    while j < row.len()
        invariant
            0 <= j <= row.len(),
            res@ == row@.subrange(0, j as int),
        decreases row.len() - j,
    {
        res.push(row[j]);
        j += 1;
        assert(res@ =~= row@.subrange(0, j as int));
    }
    assert(row@.subrange(0, row.len() as int) =~= row@);
    res
}

impl Clone for Matrix {
    fn clone(&self) -> (res: Matrix)
        ensures
            res@ == self@,
            res.size == self.size,
    {
        let mut elem: Vec<Vec<Scalar>> = Vec::new();
        let mut i: usize = 0;
        while i < self.elem.len()
            invariant
                0 <= i <= self.elem.len(),
                elem@.len() == i,
                grid_of(elem@) == self@.subrange(0, i as int),
            decreases self.elem.len() - i,
        {
            let ghost before = elem@;
            elem.push(copy_row(&self.elem[i]));
            i += 1;
            proof {
                let now = grid_of(elem@);
                let want = self@.subrange(0, i as int);
                assert(now.len() == want.len());
                assert forall|k: int| 0 <= k < now.len() implies now[k] == want[k] by {
                    if k < i - 1 {
                        assert(elem@[k] == before[k]);
                        assert(grid_of(before)[k] == self@.subrange(0, i - 1)[k]);
                    }
                }
                assert(now =~= want);
            }
        }
        assert(self@.subrange(0, self.elem.len() as int) =~= self@);
        Matrix { elem, size: self.size }
    }
}

/// Equally many rows and equally many columns.
pub open spec fn same_size(a: Grid, b: Grid) -> bool {
    a.len() == b.len() && a[0].len() == b[0].len()
}

} // verus!
