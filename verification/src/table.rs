use vstd::prelude::*;

verus! {

/// The sum of the column-width ratios, in percent.
pub open spec fn sum_ratios(s: Seq<u8>) -> int
    decreases s.len(),
{
    if s.len() == 0 {
        0
    } else {
        sum_ratios(s.drop_last()) + s.last()
    }
}

/// The capability set a displayable record type supplies to the
/// generic renderer: header labels, column-width ratios, a total
/// order, how many records one visual row packs, and the projection
/// of one record to its cells. The renderer never inspects record
/// fields directly.
pub trait TableData: Sized {
    /// The order the comparator realises.
    spec fn le_spec(&self, other: &Self) -> bool;

    /// The cells one record contributes to its visual row.
    spec fn cells_spec(&self) -> Seq<Seq<char>>;

    /// How many records one visual row packs.
    spec fn group_size_spec() -> int;

    /// The header labels.
    spec fn header_spec() -> Seq<Seq<char>>;

    /// The column-width ratios, in percent.
    spec fn ratios_spec() -> Seq<u8>;

    /// The order is total.
    proof fn le_total(a: &Self, b: &Self)
        ensures
            a.le_spec(b) || b.le_spec(a),
    ;

    /// The order is transitive.
    proof fn le_trans(a: &Self, b: &Self, c: &Self)
        requires
            a.le_spec(b),
            b.le_spec(c),
        ensures
            a.le_spec(c),
    ;

    /// The executable comparator.
    fn le(&self, other: &Self) -> (r: bool)
        ensures
            r == self.le_spec(other),
    ;

    /// Header labels, one per column of a full visual row.
    fn header() -> (h: Vec<String>)
        ensures
            h@.map_values(|s: String| s@) == Self::header_spec(),
    ;

    /// Per-column width ratios; they sum to at most 100 percent.
    fn column_constraints() -> (c: Vec<u8>)
        ensures
            c@ == Self::ratios_spec(),
            sum_ratios(c@) <= 100,
    ;

    /// Records per visual row.
    fn group_size() -> (k: usize)
        ensures
            k >= 1,
            k as int == Self::group_size_spec(),
    ;

    /// One record's cells.
    fn cells(&self) -> (c: Vec<String>)
        ensures
            c@.map_values(|s: String| s@) == self.cells_spec(),
    ;
}

/// Where a record belongs in an already sorted sequence.
pub open spec fn insert_sorted_spec<D: TableData>(s: Seq<D>, x: D) -> Seq<D>
    decreases s.len(),
{
    if s.len() == 0 {
        seq![x]
    } else if x.le_spec(&s[0]) {
        seq![x] + s
    } else {
        seq![s[0]] + insert_sorted_spec(s.skip(1), x)
    }
}

/// The sequence sorted by the record order: each record inserted, in
/// turn, into its place. This pins the sorted result down to a single
/// value, so sorting equal inputs gives equal outputs.
pub open spec fn sort_spec<D: TableData>(s: Seq<D>) -> Seq<D>
    decreases s.len(),
{
    if s.len() == 0 {
        Seq::empty()
    } else {
        insert_sorted_spec(sort_spec(s.drop_last()), s.last())
    }
}

/// Sorted under the record order.
pub open spec fn sorted_by_le<D: TableData>(s: Seq<D>) -> bool {
    forall|i: int, j: int| 0 <= i < j < s.len() ==> #[trigger] s[i].le_spec(&s[j])
}

/// All cells of a group of records, in record order.
pub open spec fn concat_cells<D: TableData>(s: Seq<D>) -> Seq<Seq<char>>
    decreases s.len(),
{
    if s.len() == 0 {
        Seq::empty()
    } else {
        concat_cells(s.drop_last()) + s.last().cells_spec()
    }
}

/// The records of the i-th visual row: the i-th group of k, cut short
/// at the end of the list.
pub open spec fn row_group<D: TableData>(s: Seq<D>, k: int, i: int) -> Seq<D> {
    s.subrange(k * i, if k * (i + 1) <= s.len() { k * (i + 1) } else { s.len() as int })
}

/// The projection of a record sequence into visual rows of cells:
/// k records per row, the last row holding whatever remains. No row
/// reads past the end of the list.
pub open spec fn rows_of<D: TableData>(s: Seq<D>, k: int) -> Seq<Seq<Seq<char>>>
    decreases s.len(),
    when k >= 1
{
    if s.len() == 0 {
        Seq::empty()
    } else if s.len() <= k {
        seq![concat_cells(s)]
    } else {
        seq![concat_cells(s.take(k))] + rows_of(s.skip(k), k)
    }
}

/// The view of built rows: each cell as its character sequence.
pub open spec fn rows_view(rows: Seq<Vec<String>>) -> Seq<Seq<Seq<char>>> {
    rows.map_values(|r: Vec<String>| r@.map_values(|s: String| s@))
}

/// Insert a record into a sorted list at its place.
pub fn insert_sorted<D: TableData>(v: Vec<D>, x: D) -> (r: Vec<D>)
    ensures
        r@ == insert_sorted_spec(v@, x),
    decreases v.len(),
{
    let ghost v0 = v@;
    if v.len() == 0 {
        let mut r = v;
        r.push(x);
        proof {
            assert(r@ =~= insert_sorted_spec(v0, x));
        }
        r
    } else if x.le(&v[0]) {
        let mut r = v;
        r.insert(0, x);
        proof {
            assert(r@ =~= seq![x] + v0);
        }
        r
    } else {
        let mut w = v;
        let h = w.remove(0);
        proof {
            assert(w@ =~= v0.skip(1));
        }
        let mut r = insert_sorted(w, x);
        r.insert(0, h);
        proof {
            assert(r@ =~= seq![h] + insert_sorted_spec(v0.skip(1), x));
        }
        r
    }
}

/// Sort the records under the record order.
pub fn sort_records<D: TableData>(v: Vec<D>) -> (r: Vec<D>)
    ensures
        r@ == sort_spec(v@),
{
    let ghost orig = v@;
    let mut rest = v;
    let mut acc: Vec<D> = Vec::new();
    while rest.len() > 0
        invariant
            orig == orig.take(orig.len() - rest.len()) + rest@,
            acc@ == sort_spec(orig.take(orig.len() - rest.len())),
        decreases rest.len(),
    {
        let ghost i = orig.len() - rest@.len();
        let x = rest.remove(0);
        proof {
            assert(orig[i] == x);
            assert(orig.take(i + 1) =~= orig.take(i).push(x));
            assert(orig.take(i + 1).drop_last() =~= orig.take(i));
            assert(orig == orig.take(i + 1) + rest@) by {
                assert(orig =~= orig.take(i + 1) + rest@);
            }
        }
        acc = insert_sorted(acc, x);
        proof {
            assert(acc@ == sort_spec(orig.take(i + 1)));
        }
    }
    proof {
        assert(orig.take(orig.len() as int) =~= orig);
    }
    acc
}

/// Pack the records into visual rows, k per row in list order; the
/// last row holds whatever remains and no slot is read past the end
/// of the list.
pub fn project_rows<D: TableData>(v: &Vec<D>) -> (rows: Vec<Vec<String>>)
    ensures
        rows_view(rows@) == rows_of(v@, D::group_size_spec()),
{
    let k = D::group_size();
    let n = v.len();
    let mut rows: Vec<Vec<String>> = Vec::new();
    let mut lo: usize = 0;
    proof {
        assert(v@.skip(0) =~= v@);
        assert(rows_view(rows@) =~= Seq::<Seq<Seq<char>>>::empty());
        assert(rows_view(rows@) + rows_of(v@.skip(0), k as int) =~= rows_of(v@, k as int));
    }
    while lo < n
        invariant
            k >= 1,
            k as int == D::group_size_spec(),
            n == v@.len(),
            lo <= n,
            rows_of(v@, k as int) == rows_view(rows@) + rows_of(v@.skip(lo as int), k as int),
        decreases n - lo,
    {
        let end = if n - lo > k {
            lo + k
        } else {
            n
        };
        let ghost rem = v@.skip(lo as int);
        let ghost rows_pre = rows_view(rows@);
        let mut row: Vec<String> = Vec::new();
        let mut j = lo;
        while j < end
            invariant
                lo <= j <= end <= n,
                n == v@.len(),
                row@.map_values(|s: String| s@) == concat_cells(v@.subrange(lo as int, j as int)),
            decreases end - j,
        {
            let mut cs = v[j].cells();
            let ghost row_pre = row@.map_values(|s: String| s@);
            let ghost cs_view = cs@.map_values(|s: String| s@);
            row.append(&mut cs);
            proof {
                assert(v@.subrange(lo as int, j + 1).drop_last() =~= v@.subrange(
                    lo as int,
                    j as int,
                ));
                assert(v@.subrange(lo as int, j + 1).last() == v@[j as int]);
                assert(row@.map_values(|s: String| s@) =~= row_pre + cs_view);
            }
            j = j + 1;
        }
        let ghost group = concat_cells(v@.subrange(lo as int, end as int));
        rows.push(row);
        proof {
            assert(rows_view(rows@) =~= rows_pre + seq![group]);
            if rem.len() <= k {
                assert(v@.subrange(lo as int, end as int) =~= rem);
                assert(v@.skip(end as int) =~= Seq::<D>::empty());
                assert(rows_of(rem, k as int) == seq![group] + rows_of(
                    v@.skip(end as int),
                    k as int,
                ));
            } else {
                assert(v@.subrange(lo as int, end as int) =~= rem.take(k as int));
                assert(v@.skip(end as int) =~= rem.skip(k as int));
            }
            assert(rows_view(rows@) + rows_of(v@.skip(end as int), k as int) =~= rows_pre + rows_of(
                rem,
                k as int,
            ));
        }
        lo = end;
    }
    proof {
        assert(v@.skip(lo as int) =~= Seq::<D>::empty());
        assert(rows_view(rows@) =~= rows_of(v@, k as int));
    }
    rows
}

/// One draw of the renderer: sort the records in place under their
/// order, then project the sorted list into visual rows. The rows are
/// a function of the record list alone, so equal lists draw equal
/// tables.
pub fn to_rows<D: TableData>(items: &mut Vec<D>) -> (rows: Vec<Vec<String>>)
    ensures
        final(items)@ == sort_spec(old(items)@),
        rows_view(rows@) == rows_of(sort_spec(old(items)@), D::group_size_spec()),
{
    let ghost items0 = items@;
    let taken = items.split_off(0);
    proof {
        assert(taken@ =~= items0);
    }
    let sorted = sort_records(taken);
    *items = sorted;
    project_rows(items)
}

/// Taking a subrange of a suffix is taking a shifted subrange of the
/// whole.
proof fn lemma_subrange_of_skip<T>(s: Seq<T>, k: int, a: int, b: int)
    requires
        0 <= k <= s.len(),
        0 <= a <= b <= s.len() - k,
    ensures
        s.skip(k).subrange(a, b) =~= s.subrange(a + k, b + k),
{
    assert forall|m: int| 0 <= m < b - a implies s.skip(k).subrange(a, b)[m] == s.subrange(
        a + k,
        b + k,
    )[m] by {
        assert(s.skip(k).subrange(a, b)[m] == s.skip(k)[a + m]);
        assert(s.skip(k)[a + m] == s[a + m + k]);
    }
}

/// The shape of the projection: a non-empty list of n records fills r
/// rows with (r-1)*k < n <= r*k — all rows full but for at most one
/// partial remainder — and the i-th row shows exactly the i-th group
/// of records, cut short at the end of the list and nowhere else.
pub proof fn lemma_rows_shape<D: TableData>(s: Seq<D>, k: int)
    requires
        k >= 1,
    ensures
        s.len() == 0 ==> rows_of(s, k).len() == 0,
        s.len() > 0 ==> (rows_of(s, k).len() - 1) * k < s.len() && s.len() <= rows_of(s, k).len()
            * k,
        forall|i: int|
            0 <= i < rows_of(s, k).len() ==> #[trigger] rows_of(s, k)[i] == concat_cells(
                row_group(s, k, i),
            ),
    decreases s.len(),
{
    let n = s.len() as int;
    if s.len() == 0 {
    } else if s.len() <= k {
        assert(rows_of(s, k).len() == 1);
        assert(row_group(s, k, 0) =~= s);
    } else {
        lemma_rows_shape(s.skip(k), k);
        let rest = rows_of(s.skip(k), k);
        let r2 = rest.len() as int;
        assert((r2 - 1) * k + k == r2 * k) by (nonlinear_arith);
        assert(r2 * k + k == (r2 + 1) * k) by (nonlinear_arith);
        assert(rows_of(s, k).len() == r2 + 1);
        assert forall|i: int| 0 <= i < rows_of(s, k).len() implies #[trigger] rows_of(s, k)[i]
            == concat_cells(row_group(s, k, i)) by {
            if i == 0 {
                assert(row_group(s, k, 0) =~= s.take(k));
            } else {
                assert(rows_of(s, k)[i] == rest[i - 1]);
                assert(rest[i - 1] == concat_cells(row_group(s.skip(k), k, i - 1)));
                let a = k * (i - 1);
                let skiplen = n - k;
                let u1 = if k * i <= skiplen {
                    k * i
                } else {
                    skiplen
                };
                assert(k * (i - 1) + k == k * i) by (nonlinear_arith);
                assert(k * i + k == k * (i + 1)) by (nonlinear_arith);
                assert(k * i >= k * 1) by (nonlinear_arith)
                    requires
                        k >= 1 && i >= 1,
                ;
                assert(k * (i - 1) >= 0) by (nonlinear_arith)
                    requires
                        k >= 0 && i >= 1,
                ;
                assert(k * (i - 1) <= k * (r2 - 1)) by (nonlinear_arith)
                    requires
                        k >= 1 && i - 1 <= r2 - 1,
                ;
                assert((r2 - 1) * k < skiplen);
                assert(k * (r2 - 1) == (r2 - 1) * k) by (nonlinear_arith);
                assert(a >= 0);
                assert(a + k == k * i);
                assert(a < k * i);
                assert(a <= k * (r2 - 1));
                assert(a <= skiplen);
                assert(a <= u1);
                assert(u1 <= skiplen);
                assert(row_group(s.skip(k), k, i - 1) == s.skip(k).subrange(a, u1));
                lemma_subrange_of_skip(s, k, a, u1);
                assert(s.subrange(a + k, u1 + k) == row_group(s, k, i));
            }
        }
    }
}

/// Inserting a record at its place keeps the list sorted and adds
/// exactly that record, nothing else.
pub proof fn lemma_insert_sorted_spec<D: TableData>(s: Seq<D>, x: D)
    requires
        sorted_by_le(s),
    ensures
        sorted_by_le(insert_sorted_spec(s, x)),
        insert_sorted_spec(s, x).to_multiset() == s.to_multiset().insert(x),
    decreases s.len(),
{
    broadcast use vstd::seq_lib::group_to_multiset_ensures;
    broadcast use vstd::seq_lib::to_multiset_insert;

    let r = insert_sorted_spec(s, x);
    if s.len() == 0 {
        assert(seq![x] =~= Seq::<D>::empty().push(x));
        assert(r.to_multiset() =~= s.to_multiset().insert(x));
    } else if x.le_spec(&s[0]) {
        assert(seq![x] + s =~= s.insert(0, x));
        assert(r.to_multiset() =~= s.to_multiset().insert(x));
        assert forall|i: int, j: int| 0 <= i < j < r.len() implies #[trigger] r[i].le_spec(
            &r[j],
        ) by {
            if i == 0 {
                assert(r[j] == s[j - 1]);
                if j - 1 > 0 {
                    assert(s[0].le_spec(&s[j - 1]));
                    D::le_trans(&x, &s[0], &s[j - 1]);
                }
            } else {
                assert(r[i] == s[i - 1] && r[j] == s[j - 1]);
            }
        }
    } else {
        D::le_total(&x, &s[0]);
        assert(s[0].le_spec(&x));
        assert forall|i: int, j: int| 0 <= i < j < s.skip(1).len() implies #[trigger] s.skip(1)[i].le_spec(
            &s.skip(1)[j],
        ) by {
            assert(s.skip(1)[i] == s[i + 1] && s.skip(1)[j] == s[j + 1]);
        }
        lemma_insert_sorted_spec(s.skip(1), x);
        let t = insert_sorted_spec(s.skip(1), x);
        assert(seq![s[0]] + t =~= t.insert(0, s[0]));
        assert(s =~= s.skip(1).insert(0, s[0]));
        assert(r.to_multiset() =~= s.to_multiset().insert(x));
        assert forall|i: int, j: int| 0 <= i < j < r.len() implies #[trigger] r[i].le_spec(
            &r[j],
        ) by {
            if i == 0 {
                let e = t[j - 1];
                assert(t.contains(e));
                assert(t.to_multiset().count(e) > 0);
                if s.skip(1).to_multiset().count(e) > 0 {
                    assert(s.skip(1).contains(e));
                    let m = choose|m: int| 0 <= m < s.skip(1).len() && s.skip(1)[m] == e;
                    assert(s[m + 1] == e);
                    assert(s[0].le_spec(&s[m + 1]));
                } else {
                    assert(e == x);
                }
            } else {
                assert(r[i] == t[i - 1] && r[j] == t[j - 1]);
            }
        }
    }
}

/// Sorting sorts: the result is ordered under the record order and is
/// a permutation of the input — the same records, each kept exactly as
/// many times as it occurs.
pub proof fn lemma_sort_spec_correct<D: TableData>(s: Seq<D>)
    ensures
        sorted_by_le(sort_spec(s)),
        sort_spec(s).to_multiset() == s.to_multiset(),
        sort_spec(s).len() == s.len(),
    decreases s.len(),
{
    broadcast use vstd::seq_lib::group_to_multiset_ensures;

    if s.len() > 0 {
        lemma_sort_spec_correct(s.drop_last());
        lemma_insert_sorted_spec(sort_spec(s.drop_last()), s.last());
        assert(s =~= s.drop_last().push(s.last()));
        assert(sort_spec(s).to_multiset() =~= s.to_multiset());
        assert(sort_spec(s).to_multiset().len() == sort_spec(s).len());
        assert(s.to_multiset().len() == s.len());
    }
}

/// The draw pipeline is deterministic: equal record lists sort to the
/// same list and project to the same visual rows, so rendering the
/// same input twice yields identical output both times.
pub proof fn lemma_pipeline_deterministic<D: TableData>(a: Seq<D>, b: Seq<D>, k: int)
    requires
        a == b,
    ensures
        sort_spec(a) == sort_spec(b),
        rows_of(sort_spec(a), k) == rows_of(sort_spec(b), k),
{
}

} // verus!
