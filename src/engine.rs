//! Shape arithmetic around the inference engine.
use vstd::prelude::*;

use crate::error::InferaError;

verus! {

/// The product of a sequence of dimensions.
pub open spec fn dims_product(s: Seq<usize>) -> int
    decreases s.len(),
{
    if s.len() == 0 {
        1
    } else {
        dims_product(s.drop_last()) * s.last()
    }
}

/// The (rows, cols) of a tensor shape, all dimensions after the first
/// flattened into the columns: a scalar is 1 x 1, a vector of `n` is `n` x 1,
/// and `[d0, d1, ...]` is `d0` x (the product of the rest, at least 1).
pub open spec fn rows_cols_of(shape: Seq<usize>) -> (int, int) {
    if shape.len() == 0 {
        (1, 1)
    } else if shape.len() == 1 {
        (shape[0] as int, 1)
    } else {
        let p = dims_product(shape.skip(1));
        (shape[0] as int, if p >= 1 { p } else { 1 })
    }
}

/// Computes (rows, cols) of a tensor shape. The shape is that of a tensor
/// held in memory, so its element count fits in a `usize`.
pub fn shape_rows_cols(shape: &[usize]) -> (r: (usize, usize))
    requires
        dims_product(shape@.skip(1)) <= usize::MAX,
    ensures
        (r.0 as int, r.1 as int) == rows_cols_of(shape@),
{
    let n = shape.len();
    if n == 0 {
        return (1, 1);
    } else if n == 1 {
        return (shape[0], 1);
    }
    let ghost rest = shape@.skip(1);
    let mut i: usize = 1;
    while i < n
        invariant
            n == shape@.len(),
            rest == shape@.skip(1),
            1 <= i <= n,
            forall|j: int| 0 <= j < i - 1 ==> #[trigger] rest[j] >= 1,
        decreases n - i,
    {
        if shape[i] == 0 {
            proof {
                lemma_product_zero(rest, i - 1);
            }
            return (shape[0], 1);
        }
        i = i + 1;
    }
    let mut cols: usize = 1;
    let mut i: usize = 1;
    while i < n
        invariant
            n == shape@.len(),
            rest == shape@.skip(1),
            dims_product(rest) <= usize::MAX,
            forall|j: int| 0 <= j < rest.len() ==> #[trigger] rest[j] >= 1,
            1 <= i <= n,
            cols == dims_product(rest.subrange(0, i - 1)),
        decreases n - i,
    {
        proof {
            assert(rest.subrange(0, i as int).drop_last() =~= rest.subrange(0, i - 1));
            lemma_prefix_at_most_whole(rest, i as int);
        }
        cols = cols * shape[i];
        i = i + 1;
    }
    assert(rest.subrange(0, n - 1) =~= rest);
    proof {
        lemma_prefix_at_most_whole(rest, 0);
        assert(rest.subrange(0, 0) =~= Seq::<usize>::empty());
    }
    (shape[0], cols)
}

/// A zero dimension makes the product zero.
proof fn lemma_product_zero(s: Seq<usize>, j: int)
    requires
        0 <= j < s.len(),
        s[j] == 0,
    ensures
        dims_product(s) == 0,
    decreases s.len(),
{
    let p = dims_product(s.drop_last());
    let d = s.last() as int;
    if j < s.len() - 1 {
        lemma_product_zero(s.drop_last(), j);
        assert(p * d == 0) by (nonlinear_arith)
            requires
                p == 0,
        ;
    } else {
        assert(p * d == 0) by (nonlinear_arith)
            requires
                d == 0,
        ;
    }
}

/// With every dimension at least 1, a prefix's product is at least 1 and at
/// most the whole product.
proof fn lemma_prefix_at_most_whole(s: Seq<usize>, k: int)
    requires
        0 <= k <= s.len(),
        forall|j: int| 0 <= j < s.len() ==> #[trigger] s[j] >= 1,
    ensures
        1 <= dims_product(s.subrange(0, k)) <= dims_product(s),
    decreases s.len() - k,
{
    if k < s.len() {
        lemma_prefix_at_most_whole(s, k + 1);
        let a = s.subrange(0, k);
        let b = s.subrange(0, k + 1);
        assert(b.drop_last() =~= a);
        let pa = dims_product(a);
        let d = s[k] as int;
        assert(b.last() == s[k]);
        assert(dims_product(b) == pa * d);
        assert(1 <= pa && pa <= pa * d) by (nonlinear_arith)
            requires
                d >= 1,
                pa * d >= 1,
        ;
    } else {
        assert(s.subrange(0, k) =~= s);
        lemma_product_positive(s);
    }
}

proof fn lemma_product_positive(s: Seq<usize>)
    requires
        forall|j: int| 0 <= j < s.len() ==> #[trigger] s[j] >= 1,
    ensures
        dims_product(s) >= 1,
    decreases s.len(),
{
    if s.len() > 0 {
        lemma_product_positive(s.drop_last());
        let p = dims_product(s.drop_last());
        let d = s.last() as int;
        assert(p * d >= 1) by (nonlinear_arith)
            requires
                p >= 1,
                d >= 1,
        ;
    }
}

/// The product of the positive dimensions of a model's input shape (1 where
/// there are none): the element count of one batch item.
pub open spec fn positive_product(s: Seq<i64>) -> int
    decreases s.len(),
{
    if s.len() == 0 {
        1
    } else if s.last() > 0 {
        positive_product(s.drop_last()) * s.last()
    } else {
        positive_product(s.drop_last())
    }
}

/// Whether every dimension is positive.
pub open spec fn all_known(s: Seq<i64>) -> bool {
    forall|j: int| 0 <= j < s.len() ==> #[trigger] s[j] > 0
}

/// Whether an input of `cols` columns suits a model with input shape `shape`:
/// where the shape has a first dimension and every later dimension is
/// known, `cols` must be their product; otherwise any `cols` is taken.
pub open spec fn cols_fit(shape: Seq<i64>, cols: int) -> bool {
    shape.len() == 0 || !all_known(shape.skip(1)) || positive_product(shape.skip(1)) == cols
}

proof fn lemma_positive_product_step(s: Seq<i64>, k: int)
    requires
        0 <= k < s.len(),
    ensures
        positive_product(s.subrange(0, k + 1)) == if s[k] > 0 {
            positive_product(s.subrange(0, k)) * s[k]
        } else {
            positive_product(s.subrange(0, k))
        },
{
    assert(s.subrange(0, k + 1).drop_last() =~= s.subrange(0, k));
}

proof fn lemma_positive_product_grows(s: Seq<i64>, k: int)
    requires
        0 <= k <= s.len(),
    ensures
        1 <= positive_product(s.subrange(0, k)) <= positive_product(s),
    decreases s.len() - k,
{
    if k < s.len() {
        lemma_positive_product_grows(s, k + 1);
        lemma_positive_product_step(s, k);
        let p = positive_product(s.subrange(0, k));
        if s[k] > 0 {
            let d = s[k] as int;
            assert(1 <= p && p <= p * d) by (nonlinear_arith)
                requires
                    d >= 1,
                    p * d >= 1,
            ;
        }
    } else {
        assert(s.subrange(0, k) =~= s);
        lemma_positive_product_positive(s);
    }
}

proof fn lemma_positive_product_positive(s: Seq<i64>)
    ensures
        positive_product(s) >= 1,
    decreases s.len(),
{
    if s.len() > 0 {
        lemma_positive_product_positive(s.drop_last());
        let p = positive_product(s.drop_last());
        if s.last() > 0 {
            let d = s.last() as int;
            assert(p * d >= 1) by (nonlinear_arith)
                requires
                    p >= 1,
                    d >= 1,
            ;
        }
    }
}

/// A positive dimension is at most the product of the positive dimensions.
proof fn lemma_dim_at_most_product(s: Seq<i64>, j: int)
    requires
        0 <= j < s.len(),
    ensures
        s[j] > 0 ==> s[j] <= positive_product(s),
{
    lemma_positive_product_grows(s, j);
    lemma_positive_product_grows(s, j + 1);
    lemma_positive_product_step(s, j);
    if s[j] > 0 {
        let p = positive_product(s.subrange(0, j));
        let d = s[j] as int;
        assert(d <= p * d) by (nonlinear_arith)
            requires
                p >= 1,
                d >= 1,
        ;
    }
}

/// The product of the positive dimensions, where it fits in a `usize`.
pub fn known_elements(shape: &[i64]) -> (r: Option<usize>)
    ensures
        r matches Some(n) ==> n == positive_product(shape@),
        r is None <==> positive_product(shape@) > usize::MAX,
{
    assert(shape@.skip(0) =~= shape@);
    known_elements_from(shape, 0)
}

/// The product of the positive dimensions from index `start` on, where it
/// fits in a `usize`.
fn known_elements_from(shape: &[i64], start: usize) -> (r: Option<usize>)
    requires
        start <= shape@.len(),
    ensures
        r matches Some(n) ==> n == positive_product(shape@.skip(start as int)),
        r is None <==> positive_product(shape@.skip(start as int)) > usize::MAX,
{
    let ghost s = shape@.skip(start as int);
    let mut acc: usize = 1;
    let mut i: usize = start;
    assert(s.subrange(0, 0) =~= Seq::<i64>::empty());
    while i < shape.len()
        invariant
            start <= i <= shape@.len(),
            s == shape@.skip(start as int),
            acc == positive_product(s.subrange(0, i - start)),
        decreases shape.len() - i,
    {
        proof {
            lemma_positive_product_step(s, i - start);
        }
        let d = shape[i];
        assert(d == s[i - start]);
        if d > 0 {
            assert((acc as int) * (d as int) < 0x1_0000_0000_0000_0000 * 0x1_0000_0000_0000_0000)
                by (nonlinear_arith)
                requires
                    0 <= acc < 0x1_0000_0000_0000_0000int,
                    0 < d < 0x1_0000_0000_0000_0000int,
            ;
            let wide = (acc as u128) * (d as u128);
            if wide > usize::MAX as u128 {
                proof {
                    lemma_positive_product_grows(s, i - start + 1);
                }
                return None;
            }
            acc = wide as usize;
        }
        i = i + 1;
    }
    assert(s.subrange(0, i - start) =~= s);
    Some(acc)
}

/// Whether an input of `rows` x `cols` suits a model with input shape `shape`.
pub fn input_cols_fit(shape: &[i64], cols: usize) -> (r: bool)
    ensures
        r == cols_fit(shape@, cols as int),
{
    if shape.len() == 0 {
        return true;
    }
    let ghost inner = shape@.skip(1);
    let mut i: usize = 1;
    while i < shape.len()
        invariant
            1 <= i <= shape@.len(),
            inner == shape@.skip(1),
            forall|j: int| 0 <= j < i - 1 ==> #[trigger] inner[j] > 0,
        decreases shape.len() - i,
    {
        if shape[i] <= 0 {
            assert(inner[i - 1] <= 0);
            return true;
        }
        i = i + 1;
    }
    match known_elements_from(shape, 1) {
        Some(n) => n == cols,
        None => false,
    }
}

/// The shape of the input tensor made of a blob of `blob_len` bytes (native
/// 32-bit floats) for a model with input shape `shape`: the blob must hold a
/// whole number of floats, and of batch items of `positive_product(shape)`
/// floats each; the batch size then stands in for every unknown (negative)
/// dimension.
pub fn blob_input_shape(shape: &[i64], blob_len: usize) -> (r: Result<Vec<usize>, InferaError>)
    requires
        positive_product(shape@) <= usize::MAX,
    ensures
        blob_len % 4 != 0 ==> r == Err::<Vec<usize>, InferaError>(InferaError::InvalidBlobSize),
        blob_len % 4 == 0 && (blob_len as int / 4) % positive_product(shape@) != 0 ==> r == Err::<
            Vec<usize>,
            InferaError,
        >(
            InferaError::BlobShapeMismatch {
                expected: positive_product(shape@) as usize,
                actual: (blob_len / 4) as usize,
            },
        ),
        blob_len % 4 == 0 && (blob_len as int / 4) % positive_product(shape@) == 0 ==> (r matches Ok(v) && v@.len()
            == shape@.len() && forall|j: int|
            0 <= j < shape@.len() ==> #[trigger] v@[j] == if shape@[j] < 0 {
                (blob_len as int / 4) / positive_product(shape@)
            } else {
                shape@[j] as int
            }),
{
    if blob_len % 4 != 0 {
        return Err(InferaError::InvalidBlobSize);
    }
    let n = blob_len / 4;
    proof {
        lemma_positive_product_positive(shape@);
    }
    let expected = match known_elements(shape) {
        Some(e) => e,
        None => {
            proof {
                assert(false);
            }
            1
        },
    };
    if n % expected != 0 {
        return Err(InferaError::BlobShapeMismatch { expected, actual: n });
    }
    let batch = n / expected;
    let mut out: Vec<usize> = Vec::new();
    let mut i: usize = 0;
    while i < shape.len()
        invariant
            i <= shape@.len(),
            out@.len() == i,
            positive_product(shape@) <= usize::MAX,
            batch == (blob_len as int / 4) / positive_product(shape@),
            forall|j: int|
                0 <= j < i ==> #[trigger] out@[j] == if shape@[j] < 0 {
                    batch as int
                } else {
                    shape@[j] as int
                },
        decreases shape.len() - i,
    {
        let d = shape[i];
        proof {
            lemma_dim_at_most_product(shape@, i as int);
        }
        if d < 0 {
            out.push(batch);
        } else {
            out.push(d as usize);
        }
        i = i + 1;
    }
    Ok(out)
}

} // verus!
