//! Coefficient containers seen as sequences of equally long rows.
use vstd::prelude::*;

verus! {

/// The `index`-th row of `row_len` coefficients of a container.
pub open spec fn row_of(container: Seq<u64>, index: int, row_len: nat) -> Seq<u64> {
    container.subrange(index * row_len, (index + 1) * row_len)
}

/// The rows laid end to end, first row first.
pub open spec fn flatten(rows: Seq<Seq<u64>>) -> Seq<u64>
    decreases rows.len(),
{
    if rows.len() == 0 {
        Seq::empty()
    } else {
        flatten(rows.drop_last()) + rows.last()
    }
}

/// Every row has `row_len` coefficients.
pub open spec fn rows_have_len(rows: Seq<Seq<u64>>, row_len: nat) -> bool {
    forall|i: int| 0 <= i < rows.len() ==> (#[trigger] rows[i]).len() == row_len
}

/// A container of `len` coefficients that all equal `value`.
pub fn replicate(value: u64, len: usize) -> (r: Vec<u64>)
    ensures
        r@ == Seq::new(len as nat, |_i: int| value),
{
    let mut r: Vec<u64> = Vec::with_capacity(len);
    let mut i: usize = 0;
    while i < len
        invariant
            i <= len,
            r@ == Seq::new(i as nat, |_j: int| value),
        decreases len - i,
    {
        r.push(value);
        i = i + 1;
        assert(r@ =~= Seq::new(i as nat, |_j: int| value));
    }
    r
}

/// Overwrites the `index`-th row (rows being `row.len()` coefficients long)
/// of `container` with `row`, leaving every other coefficient as it was.
pub fn write_row(container: &mut Vec<u64>, index: usize, row: &Vec<u64>)
    requires
        row.len() > 0,
        (index + 1) * row.len() <= old(container).len(),
    ensures
        final(container)@ == old(container)@.subrange(0, index * row.len()) + row@ + old(
            container,
        )@.subrange((index + 1) * row.len(), old(container).len() as int),
{
    let row_len = row.len();
    proof {
        assert(index * row_len <= (index + 1) * row_len) by (nonlinear_arith)
            requires
                row_len > 0,
        ;
        assert((index + 1) * row_len == index * row_len + row_len) by (nonlinear_arith);
    }
    let start = index * row_len;
    let ghost before = container@;
    let mut j: usize = 0;
    while j < row_len
        invariant
            row_len == row.len(),
            start == index * row_len,
            start + row_len <= before.len(),
            start + row_len <= container.len(),
            j <= row_len,
            container@.len() == before.len(),
            forall|k: int| 0 <= k < start ==> container@[k] == before[k],
            forall|k: int| 0 <= k < j ==> container@[start + k] == row@[k],
            forall|k: int| start + j <= k < before.len() ==> container@[k] == before[k],
        decreases row_len - j,
    {
        container.set(start + j, row[j]);
        j = j + 1;
    }
    assert(container@ =~= before.subrange(0, start as int) + row@ + before.subrange(
        start + row_len,
        before.len() as int,
    ));
}

/// The last row of `row_len` coefficients of a container made of whole rows.
pub fn last_row(container: &Vec<u64>, row_len: usize) -> (r: Vec<u64>)
    requires
        0 < row_len <= container.len(),
        container.len() % row_len == 0,
    ensures
        r@ == container@.subrange(container.len() - row_len, container.len() as int),
        r@ == row_of(container@, (container.len() / row_len) as int - 1, row_len as nat),
{
    let len = container.len();
    let start = len - row_len;
    proof {
        let q = len as int / row_len as int;
        vstd::arithmetic::div_mod::lemma_fundamental_div_mod(len as int, row_len as int);
        assert(q * row_len == len) by (nonlinear_arith)
            requires
                len == row_len * q + len % row_len,
                len % row_len == 0,
        ;
        assert((q - 1) * row_len == q * row_len - row_len) by (nonlinear_arith);
        assert(q == (len / row_len) as int);
    }
    let mut r: Vec<u64> = Vec::with_capacity(row_len);
    let mut j: usize = start;
    while j < len
        invariant
            start <= j <= len,
            len == container.len(),
            r@ == container@.subrange(start as int, j as int),
        decreases len - j,
    {
        r.push(container[j]);
        j = j + 1;
        assert(r@ =~= container@.subrange(start as int, j as int));
    }
    r
}

/// The coefficient containers seen as sequences.
pub open spec fn views(rows: Seq<Vec<u64>>) -> Seq<Seq<u64>> {
    rows.map_values(|r: Vec<u64>| r@)
}

/// Overwrites every row of `container` (rows being `row_len` coefficients long)
/// with the row of the same index in `rows`, so that the container becomes the
/// first `container.len() / row_len` rows laid end to end.
pub fn overwrite_rows(container: &mut Vec<u64>, rows: &Vec<Vec<u64>>, row_len: usize)
    requires
        row_len > 0,
        old(container).len() % row_len == 0,
        rows.len() >= old(container).len() / row_len,
        rows_have_len(views(rows@), row_len as nat),
    ensures
        final(container)@ == flatten(views(rows@).take((old(container).len() / row_len) as int)),
        final(container)@.len() == old(container)@.len(),
{
    let count = container.len() / row_len;
    let ghost len = container.len();
    let ghost rv = views(rows@);
    proof {
        vstd::arithmetic::div_mod::lemma_fundamental_div_mod(len as int, row_len as int);
        assert(count * row_len == len) by (nonlinear_arith)
            requires
                len == row_len * count + len % row_len,
                len % row_len == 0,
        ;
    }
    let mut i: usize = 0;
    while i < count
        invariant
            row_len > 0,
            count == len / row_len,
            count * row_len == len,
            rows.len() >= count,
            rv == views(rows@),
            rows_have_len(rv, row_len as nat),
            i <= count,
            container.len() == len,
            i * row_len <= len,
            container@.subrange(0, i * row_len) == flatten(rv.take(i as int)),
        decreases count - i,
    {
        let ghost before = container@;
        proof {
            assert(rv[i as int] == rows@[i as int]@);
            assert(rv[i as int].len() == row_len);
            assert((i + 1) * row_len <= count * row_len) by (nonlinear_arith)
                requires
                    i + 1 <= count,
            ;
            assert((i + 1) * row_len == i * row_len + row_len) by (nonlinear_arith);
        }
        write_row(container, i, &rows[i]);
        proof {
            assert(rv.take(i + 1) =~= rv.take(i as int).push(rv[i as int]));
            lemma_flatten_push(rv.take(i as int), rv[i as int]);
            assert(container@.subrange(0, (i + 1) * row_len) =~= before.subrange(0, i * row_len)
                + rows@[i as int]@);
        }
        i = i + 1;
        proof {
            assert(i * row_len <= count * row_len) by (nonlinear_arith)
                requires
                    i <= count,
            ;
        }
    }
    assert(container@.subrange(0, count * row_len) =~= container@);
}

/// Overwrites every row of `container` from `rows` and gives back the last
/// row of the result, which is the row of `rows` at the container's last row
/// index.
pub fn overwritten_last_row(container: Vec<u64>, rows: &Vec<Vec<u64>>, row_len: usize) -> (r: Vec<u64>)
    requires
        0 < row_len <= container.len(),
        container.len() % row_len == 0,
        rows.len() >= container.len() / row_len,
        rows_have_len(views(rows@), row_len as nat),
    ensures
        r@ == rows@[container.len() / row_len - 1]@,
{
    let mut container = container;
    let count = container.len() / row_len;
    proof {
        vstd::arithmetic::div_mod::lemma_fundamental_div_mod(container.len() as int, row_len as int);
        assert(count >= 1) by (nonlinear_arith)
            requires
                container.len() == row_len * count + container.len() % row_len,
                container.len() % row_len == 0,
                0 < row_len <= container.len(),
        ;
    }
    overwrite_rows(&mut container, rows, row_len);
    let last = last_row(&container, row_len);
    proof {
        lemma_last_row_after_overwrite(views(rows@), row_len as nat, count as nat);
        assert(views(rows@)[count - 1] == rows@[count - 1]@);
    }
    last
}

/// Appending a row to the rows appends it to their concatenation.
pub proof fn lemma_flatten_push(rows: Seq<Seq<u64>>, row: Seq<u64>)
    ensures
        flatten(rows.push(row)) == flatten(rows) + row,
{
    assert(rows.push(row).drop_last() =~= rows);
}

/// Rows of `row_len` coefficients concatenate to `rows.len() * row_len` coefficients.
pub proof fn lemma_flatten_len(rows: Seq<Seq<u64>>, row_len: nat)
    requires
        rows_have_len(rows, row_len),
    ensures
        flatten(rows).len() == rows.len() * row_len,
    decreases rows.len(),
{
    if rows.len() > 0 {
        let init = rows.drop_last();
        assert(rows_have_len(init, row_len)) by {
            assert forall|i: int| 0 <= i < init.len() implies (#[trigger] init[i]).len()
                == row_len by {
                assert(init[i] == rows[i]);
            }
        }
        lemma_flatten_len(init, row_len);
        assert(rows.last() == rows[rows.len() - 1]);
        assert((init.len() + 1) * row_len == init.len() * row_len + row_len) by (nonlinear_arith);
    }
}

/// Reading row `i` of the concatenation of equally long rows gives back `rows[i]`.
pub proof fn lemma_row_of_flatten(rows: Seq<Seq<u64>>, row_len: nat, i: int)
    requires
        rows_have_len(rows, row_len),
        0 <= i < rows.len(),
    ensures
        row_of(flatten(rows), i, row_len) == rows[i],
    decreases rows.len(),
{
    let init = rows.drop_last();
    assert(rows_have_len(init, row_len)) by {
        assert forall|k: int| 0 <= k < init.len() implies (#[trigger] init[k]).len() == row_len by {
            assert(init[k] == rows[k]);
        }
    }
    lemma_flatten_len(init, row_len);
    assert(rows.last() == rows[rows.len() - 1]);
    let f = flatten(rows);
    assert(f == flatten(init) + rows.last());
    if i == rows.len() - 1 {
        assert(i * row_len == init.len() * row_len);
        assert((i + 1) * row_len == init.len() * row_len + row_len) by (nonlinear_arith)
            requires
                i == init.len(),
        ;
        assert(row_of(f, i, row_len) =~= rows.last());
    } else {
        lemma_row_of_flatten(init, row_len, i);
        assert((i + 1) * row_len <= init.len() * row_len) by (nonlinear_arith)
            requires
                i + 1 <= init.len(),
        ;
        assert(0 <= i * row_len) by (nonlinear_arith)
            requires
                i >= 0,
        ;
        assert(i * row_len <= (i + 1) * row_len) by (nonlinear_arith);
        assert(row_of(f, i, row_len) =~= row_of(flatten(init), i, row_len));
        assert(init[i] == rows[i]);
    }
}


/// Once every row of a container has been overwritten from `rows`, its last
/// row is the row of `rows` at the last row index.
pub proof fn lemma_last_row_after_overwrite(rows: Seq<Seq<u64>>, row_len: nat, count: nat)
    requires
        rows_have_len(rows, row_len),
        1 <= count <= rows.len(),
    ensures
        row_of(flatten(rows.take(count as int)), count - 1, row_len) == rows[count - 1],
{
    let t = rows.take(count as int);
    assert(rows_have_len(t, row_len)) by {
        assert forall|i: int| 0 <= i < t.len() implies (#[trigger] t[i]).len() == row_len by {
            assert(t[i] == rows[i]);
        }
    }
    lemma_row_of_flatten(t, row_len, count - 1);
}

} // verus!
