use vstd::prelude::*;
use crate::text::{append_nat, append_repeated, fill, nat_text};
use crate::value::{format_value, value_text, Value};

verus! {

/// At most this many rows of each batch are displayed.
pub const DISPLAY_CAP: usize = 1000;

/// No column is displayed narrower than this.
pub const MIN_WIDTH: usize = 10;

/// A fragment of a query result: columns of values, each `num_rows` long.
#[derive(Debug)]
pub struct ColumnBatch {
    pub columns: Vec<Vec<Value>>,
    pub num_rows: usize,
}

/// A whole query result: the column names of its schema and the batches that hold
/// its rows. The result is buffered whole, so that the widths of all displayed
/// rows are known before the first line is written.
#[derive(Debug)]
pub struct ResultTable {
    pub names: Vec<String>,
    pub batches: Vec<ColumnBatch>,
}

impl ResultTable {
    /// Every batch has one column per name, and every column of a batch holds
    /// that batch's number of rows.
    pub open spec fn wf(&self) -> bool {
        forall|b: int|
            0 <= b < self.batches@.len() ==> {
                &&& (#[trigger] self.batches@[b]).columns@.len() == self.names@.len()
                &&& forall|c: int|
                    0 <= c < self.names@.len() ==> (#[trigger] self.batches@[b].columns@[c])@.len()
                        == self.batches@[b].num_rows
            }
    }

    /// Whether every batch has one column per name, each holding the batch's row count.
    pub fn is_well_formed(&self) -> (r: bool)
        ensures
            r == self.wf(),
    {
        let mut b: usize = 0;
        while b < self.batches.len()
            invariant
                b <= self.batches@.len(),
                forall|k: int|
                    0 <= k < b ==> {
                        &&& (#[trigger] self.batches@[k]).columns@.len() == self.names@.len()
                        &&& forall|c: int|
                            0 <= c < self.names@.len() ==> (#[trigger] self.batches@[k].columns@[c])@.len()
                                == self.batches@[k].num_rows
                    },
            decreases self.batches@.len() - b,
        {
            let batch = &self.batches[b];
            if batch.columns.len() != self.names.len() {
                return false;
            }
            let mut c: usize = 0;
            while c < batch.columns.len()
                invariant
                    b < self.batches@.len(),
                    *batch == self.batches@[b as int],
                    batch.columns@.len() == self.names@.len(),
                    c <= batch.columns@.len(),
                    forall|j: int| 0 <= j < c ==> (#[trigger] batch.columns@[j])@.len() == batch.num_rows,
                decreases batch.columns@.len() - c,
            {
                if batch.columns[c].len() != batch.num_rows {
                    assert(self.batches@[b as int].columns@[c as int]@.len() != self.batches@[b as int].num_rows);
                    return false;
                }
                c = c + 1;
            }
            b = b + 1;
        }
        true
    }

    pub open spec fn num_columns(&self) -> nat {
        self.names@.len()
    }

    pub open spec fn rows_of(&self, b: int) -> nat {
        self.batches@[b].num_rows as nat
    }

    /// The text of row `r` of column `c` in batch `b`.
    pub open spec fn cell_text(&self, b: int, c: int, r: int) -> Seq<char> {
        value_text(self.batches@[b].columns@[c]@[r])
    }

    /// Some batch holds at least one row.
    pub open spec fn has_rows(&self) -> bool {
        exists|b: int| 0 <= b < self.batches@.len() && self.rows_of(b) > 0
    }
}

pub open spec fn max_nat(a: nat, b: nat) -> nat {
    if a >= b {
        a
    } else {
        b
    }
}

/// How many rows of a batch of `n` rows are displayed.
pub open spec fn shown_rows(n: nat) -> nat {
    if n > DISPLAY_CAP {
        DISPLAY_CAP as nat
    } else {
        n
    }
}

/// `seed` widened to hold the first `r` cells of column `c` in batch `b`.
pub open spec fn width_in_batch(rt: ResultTable, c: int, b: int, r: nat, seed: nat) -> nat
    decreases r,
{
    if r == 0 {
        seed
    } else {
        max_nat(width_in_batch(rt, c, b, (r - 1) as nat, seed), rt.cell_text(b, c, r - 1).len())
    }
}

/// The width of column `c` over its header and the displayed rows of the first `k` batches.
pub open spec fn width_through(rt: ResultTable, c: int, k: nat) -> nat
    decreases k,
{
    if k == 0 {
        max_nat(MIN_WIDTH as nat, rt.names@[c]@.len())
    } else {
        width_in_batch(
            rt,
            c,
            k - 1,
            shown_rows(rt.rows_of(k - 1)),
            width_through(rt, c, (k - 1) as nat),
        )
    }
}

/// The display width of column `c`: the largest of `MIN_WIDTH`, the name's length and
/// the length of every displayed cell of the column.
pub open spec fn column_width(rt: ResultTable, c: int) -> nat {
    width_through(rt, c, rt.batches@.len())
}

pub open spec fn widths(rt: ResultTable) -> Seq<nat> {
    Seq::new(rt.num_columns(), |c: int| column_width(rt, c))
}

/// `s` followed by spaces up to `w` characters.
pub open spec fn pad(s: Seq<char>, w: nat) -> Seq<char> {
    if s.len() < w {
        s + fill((w - s.len()) as nat, ' ')
    } else {
        s
    }
}

/// The first `k` cells, each padded to its column's width and followed by `" | "`.
pub open spec fn cells_line(cells: Seq<Seq<char>>, ws: Seq<nat>, k: nat) -> Seq<char>
    decreases k,
{
    if k == 0 {
        seq![]
    } else {
        cells_line(cells, ws, (k - 1) as nat) + pad(cells[k - 1], ws[k - 1]) + seq![' ', '|', ' ']
    }
}

/// For the first `k` columns, dashes as wide as the column followed by `"-+-"`.
pub open spec fn rule_line(ws: Seq<nat>, k: nat) -> Seq<char>
    decreases k,
{
    if k == 0 {
        seq![]
    } else {
        rule_line(ws, (k - 1) as nat) + fill(ws[k - 1], '-') + seq!['-', '+', '-']
    }
}

pub open spec fn header_line(rt: ResultTable) -> Seq<char> {
    cells_line(Seq::new(rt.num_columns(), |c: int| rt.names@[c]@), widths(rt), rt.num_columns())
}

pub open spec fn row_line(rt: ResultTable, b: int, r: int) -> Seq<char> {
    cells_line(
        Seq::new(rt.num_columns(), |c: int| rt.cell_text(b, c, r)),
        widths(rt),
        rt.num_columns(),
    )
}

pub open spec fn no_rows_notice() -> Seq<char> {
    "Query returned no rows."@
}

/// The line that follows a batch with more rows than are displayed; it begins with
/// a line break, so that a blank line stands before it.
pub open spec fn truncation_notice(n: nat) -> Seq<char> {
    "\n... (showing first 1000 of "@ + nat_text(n) + " rows)"@
}

/// The lines of batch `b`: its displayed rows, then the truncation notice if it has
/// more rows than are displayed.
pub open spec fn batch_lines(rt: ResultTable, b: int) -> Seq<Seq<char>> {
    Seq::new(shown_rows(rt.rows_of(b)), |r: int| row_line(rt, b, r)) + if rt.rows_of(b)
        > DISPLAY_CAP {
        seq![truncation_notice(rt.rows_of(b))]
    } else {
        Seq::empty()
    }
}

pub open spec fn body_lines(rt: ResultTable, k: nat) -> Seq<Seq<char>>
    decreases k,
{
    if k == 0 {
        Seq::empty()
    } else {
        body_lines(rt, (k - 1) as nat) + batch_lines(rt, k - 1)
    }
}

/// The lines that display a result: a single notice where no batch has a row; else
/// a header, a rule, and the lines of every batch in order.
pub open spec fn table_lines(rt: ResultTable) -> Seq<Seq<char>> {
    if !rt.has_rows() {
        seq![no_rows_notice()]
    } else {
        seq![header_line(rt), rule_line(widths(rt), rt.num_columns())] + body_lines(
            rt,
            rt.batches@.len(),
        )
    }
}

pub open spec fn texts(v: Seq<String>) -> Seq<Seq<char>> {
    v.map_values(|s: String| s@)
}

pub open spec fn nats(v: Seq<usize>) -> Seq<nat> {
    v.map_values(|w: usize| w as nat)
}

fn append_padded(line: &mut String, text: &str, width: usize)
    ensures
        final(line)@ == old(line)@ + pad(text@, width as nat),
{
    line.append(text);
    let len = text.unicode_len();
    if len < width {
        proof {
            reveal_strlit(" ");
        }
        append_repeated(line, " ", width - len);
        assert(final(line)@ =~= old(line)@ + pad(text@, width as nat));
    } else {
        assert(final(line)@ =~= old(line)@ + pad(text@, width as nat));
    }
}

/// Joins cells into one line, each padded to its width and followed by `" | "`.
fn build_line(cells: &Vec<String>, ws: &Vec<usize>) -> (r: String)
    requires
        cells@.len() == ws@.len(),
    ensures
        r@ == cells_line(texts(cells@), nats(ws@), cells@.len()),
{
    let mut line = String::new();
    let mut c: usize = 0;
    while c < cells.len()
        invariant
            cells@.len() == ws@.len(),
            c <= cells@.len(),
            line@ == cells_line(texts(cells@), nats(ws@), c as nat),
        decreases cells@.len() - c,
    {
        append_padded(&mut line, cells[c].as_str(), ws[c]);
        proof {
            reveal_strlit(" | ");
        }
        line.append(" | ");
        c = c + 1;
        assert(line@ =~= cells_line(texts(cells@), nats(ws@), c as nat));
    }
    line
}

fn build_rule(ws: &Vec<usize>) -> (r: String)
    ensures
        r@ == rule_line(nats(ws@), ws@.len()),
{
    let mut line = String::new();
    let mut c: usize = 0;
    while c < ws.len()
        invariant
            c <= ws@.len(),
            line@ == rule_line(nats(ws@), c as nat),
        decreases ws@.len() - c,
    {
        proof {
            reveal_strlit("-");
            reveal_strlit("-+-");
        }
        append_repeated(&mut line, "-", ws[c]);
        line.append("-+-");
        c = c + 1;
        assert(line@ =~= rule_line(nats(ws@), c as nat));
    }
    line
}

fn shown_count(n: usize) -> (r: usize)
    ensures
        r == shown_rows(n as nat),
{
    if n > DISPLAY_CAP {
        DISPLAY_CAP
    } else {
        n
    }
}

/// The display width of every column.
pub fn column_widths(rt: &ResultTable) -> (ws: Vec<usize>)
    requires
        rt.wf(),
    ensures
        nats(ws@) == widths(*rt),
{
    let mut ws: Vec<usize> = Vec::new();
    let mut c: usize = 0;
    while c < rt.names.len()
        invariant
            rt.wf(),
            c <= rt.names@.len(),
            ws@.len() == c,
            forall|j: int| 0 <= j < c ==> ws@[j] as nat == column_width(*rt, j),
        decreases rt.names@.len() - c,
    {
        let name_len = rt.names[c].as_str().unicode_len();
        let mut w: usize = if name_len > MIN_WIDTH {
            name_len
        } else {
            MIN_WIDTH
        };
        let mut b: usize = 0;
        while b < rt.batches.len()
            invariant
                rt.wf(),
                c < rt.names@.len(),
                b <= rt.batches@.len(),
                w as nat == width_through(*rt, c as int, b as nat),
            decreases rt.batches@.len() - b,
        {
            let batch = &rt.batches[b];
            let shown = shown_count(batch.num_rows);
            let ghost seed = w as nat;
            let mut r: usize = 0;
            while r < shown
                invariant
                    rt.wf(),
                    c < rt.names@.len(),
                    b < rt.batches@.len(),
                    *batch == rt.batches@[b as int],
                    shown == shown_rows(rt.rows_of(b as int)),
                    r <= shown,
                    w as nat == width_in_batch(*rt, c as int, b as int, r as nat, seed),
                decreases shown - r,
            {
                assert(batch.columns@[c as int]@.len() == batch.num_rows);
                let text = format_value(&batch.columns[c][r]);
                let len = text.as_str().unicode_len();
                if len > w {
                    w = len;
                }
                r = r + 1;
            }
            b = b + 1;
        }
        ws.push(w);
        c = c + 1;
    }
    assert(nats(ws@) =~= widths(*rt));
    ws
}

fn truncation_line(n: usize) -> (r: String)
    ensures
        r@ == truncation_notice(n as nat),
{
    let mut line = String::from_str("\n... (showing first 1000 of ");
    append_nat(&mut line, n as u128);
    line.append(" rows)");
    line
}

fn render_row(rt: &ResultTable, b: usize, r: usize, ws: &Vec<usize>) -> (line: String)
    requires
        rt.wf(),
        b < rt.batches@.len(),
        r < rt.rows_of(b as int),
        nats(ws@) == widths(*rt),
    ensures
        line@ == row_line(*rt, b as int, r as int),
{
    let batch = &rt.batches[b];
    let mut cells: Vec<String> = Vec::new();
    let mut c: usize = 0;
    while c < rt.names.len()
        invariant
            rt.wf(),
            b < rt.batches@.len(),
            r < rt.rows_of(b as int),
            *batch == rt.batches@[b as int],
            c <= rt.names@.len(),
            cells@.len() == c,
            forall|j: int| 0 <= j < c ==> (#[trigger] cells@[j])@ == rt.cell_text(b as int, j, r as int),
        decreases rt.names@.len() - c,
    {
        assert(batch.columns@[c as int]@.len() == batch.num_rows);
        cells.push(format_value(&batch.columns[c][r]));
        c = c + 1;
    }
    assert(ws@.len() == widths(*rt).len());
    assert(texts(cells@) =~= Seq::new(rt.num_columns(), |c: int| rt.cell_text(b as int, c, r as int)));
    build_line(&cells, ws)
}

/// Renders a result as lines of text. Where no batch holds a row the result is the
/// single "no rows" notice.
pub fn render_table(rt: &ResultTable) -> (lines: Vec<String>)
    requires
        rt.wf(),
    ensures
        texts(lines@) == table_lines(*rt),
        !rt.has_rows() ==> texts(lines@) == seq![no_rows_notice()],
{
    let mut any = false;
    let mut k: usize = 0;
    while k < rt.batches.len()
        invariant
            k <= rt.batches@.len(),
            any ==> rt.has_rows(),
            !any ==> forall|b: int| 0 <= b < k ==> rt.rows_of(b) == 0,
        decreases rt.batches@.len() - k,
    {
        if rt.batches[k].num_rows > 0 {
            assert(rt.rows_of(k as int) > 0);
            any = true;
        }
        k = k + 1;
    }
    if !any {
        assert(!rt.has_rows());
        let lines = vec![String::from_str("Query returned no rows.")];
        assert(texts(lines@) =~= table_lines(*rt));
        return lines;
    }
    let ws = column_widths(rt);
    assert(nats(ws@).len() == widths(*rt).len());
    assert(ws@.len() == rt.names@.len());
    assert(texts(rt.names@) =~= Seq::new(rt.num_columns(), |c: int| rt.names@[c]@));
    let header = build_line(&rt.names, &ws);
    let rule = build_rule(&ws);
    assert(header@ == header_line(*rt));
    assert(rule@ == rule_line(widths(*rt), rt.num_columns()));
    let mut lines: Vec<String> = Vec::new();
    lines.push(header);
    lines.push(rule);
    let ghost head = seq![header_line(*rt), rule_line(widths(*rt), rt.num_columns())];
    assert(texts(lines@) =~= head);
    let mut b: usize = 0;
    while b < rt.batches.len()
        invariant
            rt.wf(),
            nats(ws@) == widths(*rt),
            b <= rt.batches@.len(),
            texts(lines@) == head + body_lines(*rt, b as nat),
        decreases rt.batches@.len() - b,
    {
        let n = rt.batches[b].num_rows;
        let shown = shown_count(n);
        let mut r: usize = 0;
        while r < shown
            invariant
                rt.wf(),
                nats(ws@) == widths(*rt),
                b < rt.batches@.len(),
                n == rt.rows_of(b as int),
                shown == shown_rows(n as nat),
                r <= shown,
                texts(lines@) == head + body_lines(*rt, b as nat) + Seq::new(
                    r as nat,
                    |i: int| row_line(*rt, b as int, i),
                ),
            decreases shown - r,
        {
            let line = render_row(rt, b, r, &ws);
            let ghost prev = texts(lines@);
            lines.push(line);
            assert(texts(lines@) =~= prev.push(row_line(*rt, b as int, r as int)));
            r = r + 1;
            assert(texts(lines@) =~= head + body_lines(*rt, b as nat) + Seq::new(
                r as nat,
                |i: int| row_line(*rt, b as int, i),
            ));
        }
        let ghost rows = Seq::new(shown as nat, |i: int| row_line(*rt, b as int, i));
        if n > DISPLAY_CAP {
            let notice = truncation_line(n);
            let ghost prev = texts(lines@);
            lines.push(notice);
            assert(texts(lines@) =~= prev.push(truncation_notice(n as nat)));
            assert(batch_lines(*rt, b as int) =~= rows.push(truncation_notice(n as nat)));
        } else {
            assert(batch_lines(*rt, b as int) =~= rows);
        }
        b = b + 1;
        assert(texts(lines@) =~= head + body_lines(*rt, b as nat));
    }
    lines
}

proof fn lemma_width_in_batch_covers(rt: ResultTable, c: int, b: int, r: nat, seed: nat)
    ensures
        width_in_batch(rt, c, b, r, seed) >= seed,
        forall|i: int|
            0 <= i < r ==> width_in_batch(rt, c, b, r, seed) >= #[trigger] rt.cell_text(
                b,
                c,
                i,
            ).len(),
    decreases r,
{
    if r > 0 {
        lemma_width_in_batch_covers(rt, c, b, (r - 1) as nat, seed);
    }
}

proof fn lemma_width_through_covers(rt: ResultTable, c: int, k: nat)
    ensures
        width_through(rt, c, k) >= MIN_WIDTH,
        width_through(rt, c, k) >= rt.names@[c]@.len(),
        forall|b: int, i: int|
            0 <= b < k && 0 <= i < shown_rows(rt.rows_of(b)) ==> width_through(rt, c, k)
                >= #[trigger] rt.cell_text(b, c, i).len(),
    decreases k,
{
    if k > 0 {
        let j = (k - 1) as nat;
        lemma_width_through_covers(rt, c, j);
        lemma_width_in_batch_covers(rt, c, j as int, shown_rows(rt.rows_of(j as int)), width_through(rt, c, j));
    }
}

/// A column is displayed at least as wide as `MIN_WIDTH`, as its name, and as every
/// displayed cell of it, in every batch.
pub proof fn lemma_width_covers(rt: ResultTable, c: int, b: int, r: int)
    requires
        rt.wf(),
        0 <= c < rt.num_columns(),
        0 <= b < rt.batches@.len(),
        0 <= r < shown_rows(rt.rows_of(b)),
    ensures
        column_width(rt, c) >= MIN_WIDTH,
        column_width(rt, c) >= rt.names@[c]@.len(),
        column_width(rt, c) >= rt.cell_text(b, c, r).len(),
{
    lemma_width_through_covers(rt, c, rt.batches@.len());
}

proof fn lemma_body_prefix(rt: ResultTable, j: nat, k: nat)
    requires
        j <= k,
    ensures
        body_lines(rt, j).len() <= body_lines(rt, k).len(),
        body_lines(rt, k).subrange(0, body_lines(rt, j).len() as int) == body_lines(rt, j),
    decreases k - j,
{
    if j < k {
        lemma_body_prefix(rt, j, (k - 1) as nat);
        assert(body_lines(rt, k).subrange(0, body_lines(rt, j).len() as int) =~= body_lines(
            rt,
            (k - 1) as nat,
        ).subrange(0, body_lines(rt, j).len() as int));
    } else {
        assert(body_lines(rt, k).subrange(0, body_lines(rt, j).len() as int) =~= body_lines(rt, j));
    }
}

/// A batch with more rows than `DISPLAY_CAP` is displayed as exactly `DISPLAY_CAP` of
/// its rows followed by one line naming its true row count, and these lines stand
/// together in the rendered table.
pub proof fn lemma_long_batch_truncated(rt: ResultTable, b: int)
    requires
        rt.wf(),
        0 <= b < rt.batches@.len(),
        rt.rows_of(b) > DISPLAY_CAP,
    ensures
        batch_lines(rt, b).len() == DISPLAY_CAP + 1,
        forall|i: int| 0 <= i < DISPLAY_CAP ==> #[trigger] batch_lines(rt, b)[i] == row_line(rt, b, i),
        batch_lines(rt, b)[DISPLAY_CAP as int] == truncation_notice(rt.rows_of(b)),
        exists|off: int|
            0 <= off && off + batch_lines(rt, b).len() <= table_lines(rt).len()
                && #[trigger] table_lines(rt).subrange(off, off + batch_lines(rt, b).len())
                == batch_lines(rt, b),
{
    assert(rt.has_rows());
    let n = rt.batches@.len();
    lemma_body_prefix(rt, (b + 1) as nat, n);
    let pre = body_lines(rt, b as nat);
    let bl = batch_lines(rt, b);
    let off: int = 2 + pre.len() as int;
    assert(body_lines(rt, (b + 1) as nat) == pre + bl);
    let body = body_lines(rt, n);
    let whole = table_lines(rt);
    assert(whole == seq![header_line(rt), rule_line(widths(rt), rt.num_columns())] + body);
    assert(body.subrange(0, (pre + bl).len() as int) == pre + bl);
    assert forall|i: int| 0 <= i < bl.len() implies whole[off + i] == bl[i] by {
        assert(whole[off + i] == body[pre.len() + i]);
        assert(body.subrange(0, (pre + bl).len() as int)[pre.len() + i] == (pre + bl)[pre.len() + i]);
    }
    assert(whole.subrange(off, off + bl.len() as int) =~= bl);
}

} // verus!
