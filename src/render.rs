use vstd::prelude::*;

verus! {

/// The ASCII space.
pub const SPACE: u8 = 32;

/// The ASCII line feed that ends each rendered row.
pub const NEWLINE: u8 = 10;

/// The decimal digits of `n`, most significant first, without leading zeros.
pub open spec fn digits(n: nat) -> Seq<u8>
    decreases n,
{
    if n < 10 {
        seq![(48 + n) as u8]
    } else {
        digits(n / 10).push((48 + n % 10) as u8)
    }
}

/// The decimal text of `n`: a minus sign before the digits of a negative number.
pub open spec fn decimal(n: int) -> Seq<u8> {
    if n < 0 {
        seq![45u8] + digits((-n) as nat)
    } else {
        digits(n as nat)
    }
}

/// `k` spaces.
pub open spec fn spaces(k: nat) -> Seq<u8> {
    Seq::new(k, |_i: int| SPACE)
}

/// The length of the longest of the texts in column `j` of the first `n` rows.
pub open spec fn column_width(t: Seq<Seq<Seq<u8>>>, j: int, n: int) -> nat
    decreases n,
{
    if n <= 0 {
        0
    } else {
        let w = column_width(t, j, n - 1);
        let l = t[n - 1][j].len();
        if l > w {
            l
        } else {
            w
        }
    }
}

/// Cell `[i][j]` as it stands in its row: a separating space unless it is the
/// first, then the text right-justified to the width of its column.
pub open spec fn field(t: Seq<Seq<Seq<u8>>>, i: int, j: int) -> Seq<u8> {
    let sep = if j > 0 {
        seq![SPACE]
    } else {
        Seq::empty()
    };
    sep + spaces((column_width(t, j, t.len() as int) - t[i][j].len()) as nat) + t[i][j]
}

/// The first `k` fields of row `i`.
pub open spec fn line(t: Seq<Seq<Seq<u8>>>, i: int, k: int) -> Seq<u8>
    decreases k,
{
    if k <= 0 {
        Seq::empty()
    } else {
        line(t, i, k - 1) + field(t, i, k - 1)
    }
}

/// The first `n` rows, each of `width` fields and ended by a newline.
pub open spec fn lines(t: Seq<Seq<Seq<u8>>>, width: int, n: int) -> Seq<u8>
    decreases n,
{
    if n <= 0 {
        Seq::empty()
    } else {
        lines(t, width, n - 1) + line(t, n - 1, width) + seq![NEWLINE]
    }
}

/// The whole table of texts `t`, whose rows hold `width` texts each.
pub open spec fn table(t: Seq<Seq<Seq<u8>>>, width: int) -> Seq<u8> {
    lines(t, width, t.len() as int)
}

/// A column is as wide as each of its texts.
pub proof fn lemma_column_width_bound(t: Seq<Seq<Seq<u8>>>, i: int, j: int, n: int)
    requires
        0 <= i < n,
    ensures
        t[i][j].len() <= column_width(t, j, n),
    decreases n,
{
    if i < n - 1 {
        lemma_column_width_bound(t, i, j, n - 1);
    }
}

fn push_digits(m: u64, out: &mut Vec<u8>)
    ensures
        final(out)@ == old(out)@ + digits(m as nat),
    decreases m,
{
    if m >= 10 {
        push_digits(m / 10, out);
    }
    out.push((48 + m % 10) as u8);
    assert(final(out)@ =~= old(out)@ + digits(m as nat));
}

/// The decimal text of `n`.
pub fn decimal_text(n: i64) -> (r: Vec<u8>)
    ensures
        r@ == decimal(n as int),
{
    let mut out: Vec<u8> = Vec::new();
    if n < 0 {
        out.push(45);
        let m: u64 = (0i128 - n as i128) as u64;
        push_digits(m, &mut out);
    } else {
        push_digits(n as u64, &mut out);
    }
    assert(out@ =~= decimal(n as int));
    out
}

fn push_spaces(out: &mut Vec<u8>, k: usize)
    ensures
        final(out)@ == old(out)@ + spaces(k as nat),
{
    let mut c: usize = 0;
    while c < k
        invariant
            c <= k,
            out@ == old(out)@ + spaces(c as nat),
        decreases k - c,
    {
        out.push(SPACE);
        c += 1;
        assert(out@ =~= old(out)@ + spaces(c as nat));
    }
}

fn push_all(out: &mut Vec<u8>, src: &Vec<u8>)
    ensures
        final(out)@ == old(out)@ + src@,
{
    let mut c: usize = 0;
    while c < src.len()
        invariant
            c <= src@.len(),
            out@ == old(out)@ + src@.subrange(0, c as int),
        decreases src@.len() - c,
    {
        out.push(src[c]);
        c += 1;
        assert(out@ =~= old(out)@ + src@.subrange(0, c as int));
    }
    assert(src@.subrange(0, src@.len() as int) =~= src@);
}

/// The texts `cells`, one row of `width` texts per inner vector, laid out as
/// a table: each column right-justified to its longest text, columns
/// separated by one space, each row ended by a newline.
pub fn render_table(cells: &Vec<Vec<Vec<u8>>>, width: usize) -> (r: Vec<u8>)
    requires
        forall|i: int| 0 <= i < cells@.len() ==> #[trigger] cells@[i]@.len() == width,
    ensures
        r@ == table(cells.deep_view(), width as int),
{
    let ghost t = cells.deep_view();
    let n = cells.len();
    assert forall|i: int, j: int| 0 <= i < n && 0 <= j < width implies #[trigger] t[i][j] == cells@[i]@[j]@ by {
        assert(cells@[i]@.len() == width);
    }
    let mut widths: Vec<usize> = Vec::new();
    let mut j: usize = 0;
    while j < width
        invariant
            t == cells.deep_view(),
            n == cells@.len(),
            forall|i: int| 0 <= i < n ==> #[trigger] cells@[i]@.len() == width,
            forall|i: int, j: int| 0 <= i < n && 0 <= j < width ==> #[trigger] t[i][j] == cells@[i]@[j]@,
            j <= width,
            widths@.len() == j,
            forall|k: int| 0 <= k < j ==> #[trigger] widths@[k] == column_width(t, k, n as int),
        decreases width - j,
    {
        let mut w: usize = 0;
        let mut i: usize = 0;
        while i < n
            invariant
                t == cells.deep_view(),
                n == cells@.len(),
                forall|i: int| 0 <= i < n ==> #[trigger] cells@[i]@.len() == width,
                forall|i: int, j: int| 0 <= i < n && 0 <= j < width ==> #[trigger] t[i][j] == cells@[i]@[j]@,
                j < width,
                i <= n,
                w == column_width(t, j as int, i as int),
            decreases n - i,
        {
            assert(cells@[i as int]@.len() == width);
            let l = cells[i][j].len();
            assert(t[i as int][j as int] == cells@[i as int]@[j as int]@);
            if l > w {
                w = l;
            }
            i += 1;
        }
        widths.push(w);
        j += 1;
    }
    let mut out: Vec<u8> = Vec::new();
    let mut i: usize = 0;
    while i < n
        invariant
            t == cells.deep_view(),
            n == cells@.len(),
            forall|i: int| 0 <= i < n ==> #[trigger] cells@[i]@.len() == width,
            forall|i: int, j: int| 0 <= i < n && 0 <= j < width ==> #[trigger] t[i][j] == cells@[i]@[j]@,
            widths@.len() == width,
            forall|k: int| 0 <= k < width ==> #[trigger] widths@[k] == column_width(t, k, n as int),
            i <= n,
            out@ == lines(t, width as int, i as int),
        decreases n - i,
    {
        let mut j: usize = 0;
        while j < width
            invariant
                t == cells.deep_view(),
                n == cells@.len(),
                forall|i: int| 0 <= i < n ==> #[trigger] cells@[i]@.len() == width,
                forall|i: int, j: int| 0 <= i < n && 0 <= j < width ==> #[trigger] t[i][j] == cells@[i]@[j]@,
                widths@.len() == width,
                forall|k: int| 0 <= k < width ==> #[trigger] widths@[k] == column_width(t, k, n as int),
                i < n,
                j <= width,
                out@ == lines(t, width as int, i as int) + line(t, i as int, j as int),
            decreases width - j,
        {
            let ghost before = out@;
            if j > 0 {
                out.push(SPACE);
            }
            assert(cells@[i as int]@.len() == width);
            let cell = &cells[i][j];
            assert(t[i as int][j as int] == cell@);
            proof {
                lemma_column_width_bound(t, i as int, j as int, n as int);
            }
            push_spaces(&mut out, widths[j] - cell.len());
            push_all(&mut out, cell);
            assert(out@ =~= before + field(t, i as int, j as int));
            j += 1;
        }
        out.push(NEWLINE);
        i += 1;
    }
    out
}

} // verus!
