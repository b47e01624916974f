use vstd::prelude::*;
use crate::piece::{
    Occupant, char_occupant, occupant_char, occupant_from_char, occupant_to_char,
    lemma_occupant_char_round_trip,
};

verus! {

/// Where a left-to-right read of a placement field stands, besides the
/// squares read so far: the column reached in the current row, and whether
/// the field has ended at a space.
#[derive(Clone, Copy, Debug, PartialEq, Eq, Structural)]
pub struct ScanState {
    pub column: u32,
    pub ended: bool,
}

pub open spec fn is_digit_1_to_8(c: char) -> bool {
    '1' <= c && c <= '8'
}

/// One step of the placement reader on character `c`.
pub open spec fn scan_step(
    st: Option<(Seq<Option<Occupant>>, ScanState)>,
    c: char,
) -> Option<(Seq<Option<Occupant>>, ScanState)> {
    match st {
        None => None,
        Some((sq, s)) => if s.ended {
            st
        } else if c == ' ' {
            Some((sq, ScanState { column: s.column, ended: true }))
        } else if c == '/' {
            if s.column == 8 {
                Some((sq, ScanState { column: 0, ended: false }))
            } else {
                None
            }
        } else if is_digit_1_to_8(c) {
            let n = (c as u32 - '0' as u32) as int;
            if s.column + n <= 8 {
                Some(
                    (
                        sq + Seq::new(n as nat, |i: int| None::<Occupant>),
                        ScanState { column: (s.column + n) as u32, ended: false },
                    ),
                )
            } else {
                None
            }
        } else {
            match char_occupant(c) {
                Some(o) => if s.column < 8 {
                    Some((sq.push(Some(o)), ScanState { column: (s.column + 1) as u32, ended: false }))
                } else {
                    None
                },
                None => None,
            }
        },
    }
}

/// The placement reader run over `text` from state `st`.
pub open spec fn scan_from(
    st: Option<(Seq<Option<Occupant>>, ScanState)>,
    text: Seq<char>,
) -> Option<(Seq<Option<Occupant>>, ScanState)>
    decreases text.len(),
{
    if text.len() == 0 {
        st
    } else {
        scan_step(scan_from(st, text.drop_last()), text.last())
    }
}

/// The placement reader run over a whole text.
pub open spec fn scan(text: Seq<char>) -> Option<(Seq<Option<Occupant>>, ScanState)> {
    scan_from(Some((Seq::empty(), ScanState { column: 0, ended: false })), text)
}

/// The layout that the placement field of a FEN text (everything before the
/// first space) describes: eight rows of eight squares separated by `/`,
/// a letter for a piece and a digit for a run of empty squares. `None` when
/// the field is not of that shape.
pub open spec fn placement_of(text: Seq<char>) -> Option<Seq<Option<Occupant>>> {
    match scan(text) {
        Some((sq, s)) => if sq.len() == 64 && s.column == 8 {
            Some(sq)
        } else {
            None
        },
        None => None,
    }
}

/// Along a text, the reader never recovers from a failure and never drops
/// a square it has read.
proof fn lemma_scan_monotone(text: Seq<char>, n: int, m: int)
    requires
        0 <= n <= m <= text.len(),
    ensures
        scan(text.take(n)) is None ==> scan(text.take(m)) is None,
        scan(text.take(n)) matches Some((sq, s)) ==> (scan(text.take(m)) matches Some((sq2, s2))
            ==> sq2.len() >= sq.len()),
    decreases m - n,
{
    if n < m {
        lemma_scan_monotone(text, n, m - 1);
        assert(text.take(m).drop_last() == text.take(m - 1));
    }
}

proof fn lemma_none_stays(text: Seq<char>, n: int)
    requires
        0 <= n <= text.len(),
        scan(text.take(n)) is None,
    ensures
        placement_of(text) is None,
{
    lemma_scan_monotone(text, n, text.len() as int);
    assert(text.take(text.len() as int) == text);
}

proof fn lemma_long_fails(text: Seq<char>, n: int)
    requires
        0 <= n <= text.len(),
        scan(text.take(n)) matches Some((sq, s)) && sq.len() > 64,
    ensures
        placement_of(text) is None,
{
    lemma_scan_monotone(text, n, text.len() as int);
    assert(text.take(text.len() as int) == text);
}

/// The digit that stands for a run of `n` empty squares.
pub open spec fn digit_char(n: nat) -> char {
    (48 + n) as char
}

/// The pending run of `run` empty squares, written as a digit when there is one.
pub open spec fn run_text(run: nat) -> Seq<char> {
    if run > 0 {
        seq![digit_char(run)]
    } else {
        Seq::empty()
    }
}

/// One row of a layout as FEN text, after `run` empty squares not yet written.
pub open spec fn row_text(row: Seq<Option<Occupant>>, run: nat) -> Seq<char>
    decreases row.len(),
{
    if row.len() == 0 {
        run_text(run)
    } else {
        match row[0] {
            None => row_text(row.drop_first(), run + 1),
            Some(o) => run_text(run) + seq![occupant_char(o)] + row_text(row.drop_first(), 0),
        }
    }
}

/// The `r`-th row of a layout.
pub open spec fn row_of(l: Seq<Option<Occupant>>, r: int) -> Seq<Option<Occupant>> {
    l.subrange(8 * r, 8 * r + 8)
}

/// The first `k` rows of a layout as FEN text, separated by `/`.
pub open spec fn rows_text(l: Seq<Option<Occupant>>, k: nat) -> Seq<char>
    decreases k,
{
    if k == 0 {
        Seq::empty()
    } else if k == 1 {
        row_text(row_of(l, 0), 0)
    } else {
        rows_text(l, (k - 1) as nat) + seq!['/'] + row_text(row_of(l, k - 1), 0)
    }
}

/// The placement field of a layout as FEN text.
pub open spec fn placement_text(l: Seq<Option<Occupant>>) -> Seq<char> {
    rows_text(l, 8)
}

proof fn lemma_scan_from_append(
    st: Option<(Seq<Option<Occupant>>, ScanState)>,
    a: Seq<char>,
    b: Seq<char>,
)
    ensures
        scan_from(st, a + b) == scan_from(scan_from(st, a), b),
    decreases b.len(),
{
    if b.len() == 0 {
        assert(a + b == a);
    } else {
        assert((a + b).drop_last() == a + b.drop_last());
        assert((a + b).last() == b.last());
        lemma_scan_from_append(st, a, b.drop_last());
    }
}

proof fn lemma_scan_ended(sq: Seq<Option<Occupant>>, column: u32, text: Seq<char>)
    ensures
        scan_from(Some((sq, ScanState { column, ended: true })), text)
            == Some((sq, ScanState { column, ended: true })),
    decreases text.len(),
{
    if text.len() > 0 {
        lemma_scan_ended(sq, column, text.drop_last());
    }
}

proof fn lemma_scan_one(st: Option<(Seq<Option<Occupant>>, ScanState)>, c: char)
    ensures
        scan_from(st, seq![c]) == scan_step(st, c),
{
    assert(seq![c].drop_last() =~= Seq::<char>::empty());
    assert(seq![c].last() == c);
    assert(scan_from(st, Seq::<char>::empty()) == st);
}

proof fn lemma_occupant_char_plain(o: Occupant)
    ensures
        occupant_char(o) != ' ',
        occupant_char(o) != '/',
        !is_digit_1_to_8(occupant_char(o)),
{
}

proof fn lemma_scan_run(sq: Seq<Option<Occupant>>, column: u32, run: nat)
    requires
        column + run <= 8,
    ensures
        scan_from(Some((sq, ScanState { column, ended: false })), run_text(run)) == Some(
            (
                sq + Seq::new(run, |i: int| None::<Occupant>),
                ScanState { column: (column + run) as u32, ended: false },
            ),
        ),
{
    if run > 0 {
        lemma_scan_one(Some((sq, ScanState { column, ended: false })), digit_char(run));
        assert(digit_char(run) as u32 - '0' as u32 == run);
    } else {
        assert(sq + Seq::new(0, |i: int| None::<Occupant>) =~= sq);
    }
}

/// Reading a row's text from a row start reads back that row.
proof fn lemma_scan_row(sq: Seq<Option<Occupant>>, column: u32, row: Seq<Option<Occupant>>, run: nat)
    requires
        column + run + row.len() <= 8,
    ensures
        scan_from(Some((sq, ScanState { column, ended: false })), row_text(row, run)) == Some(
            (
                sq + Seq::new(run, |i: int| None::<Occupant>) + row,
                ScanState { column: (column + run + row.len()) as u32, ended: false },
            ),
        ),
    decreases row.len(),
{
    let st = Some((sq, ScanState { column, ended: false }));
    let nones = Seq::new(run, |i: int| None::<Occupant>);
    if row.len() == 0 {
        lemma_scan_run(sq, column, run);
        assert(sq + nones + row =~= sq + nones);
    } else {
        match row[0] {
            None => {
                lemma_scan_row(sq, column, row.drop_first(), run + 1);
                assert(sq + Seq::new(run + 1, |i: int| None::<Occupant>) + row.drop_first()
                    =~= sq + nones + row);
            },
            Some(o) => {
                let c = occupant_char(o);
                lemma_scan_from_append(st, run_text(run) + seq![c], row_text(row.drop_first(), 0));
                lemma_scan_from_append(st, run_text(run), seq![c]);
                lemma_scan_run(sq, column, run);
                let mid = Some((sq + nones, ScanState { column: (column + run) as u32, ended: false }));
                lemma_scan_one(mid, c);
                lemma_occupant_char_round_trip(o);
                lemma_occupant_char_plain(o);
                lemma_scan_row(
                    (sq + nones).push(Some(o)),
                    (column + run + 1) as u32,
                    row.drop_first(),
                    0,
                );
                assert((sq + nones).push(Some(o)) + Seq::new(0, |i: int| None::<Occupant>)
                    + row.drop_first() =~= sq + nones + row);
            },
        }
    }
}

/// Reading the first `k` rows' text reads back those rows.
proof fn lemma_scan_rows(l: Seq<Option<Occupant>>, k: nat)
    requires
        l.len() == 64,
        1 <= k <= 8,
    ensures
        scan(rows_text(l, k)) == Some((l.take(8 * k as int), ScanState { column: 8, ended: false })),
    decreases k,
{
    let init = Some((Seq::<Option<Occupant>>::empty(), ScanState { column: 0, ended: false }));
    if k == 1 {
        lemma_scan_row(Seq::empty(), 0, row_of(l, 0), 0);
        assert(Seq::<Option<Occupant>>::empty() + Seq::new(0, |i: int| None::<Occupant>) + row_of(l, 0)
            =~= l.take(8));
    } else {
        lemma_scan_rows(l, (k - 1) as nat);
        let before = rows_text(l, (k - 1) as nat);
        let row = row_of(l, k - 1);
        lemma_scan_from_append(init, before + seq!['/'], row_text(row, 0));
        lemma_scan_from_append(init, before, seq!['/']);
        let done = l.take(8 * (k - 1));
        lemma_scan_one(Some((done, ScanState { column: 8, ended: false })), '/');
        lemma_scan_row(done, 0, row, 0);
        assert(done + Seq::new(0, |i: int| None::<Occupant>) + row =~= l.take(8 * k as int));
    }
}

/// Writing a layout's placement field and reading it back, alone or followed
/// by the other fields of a FEN text, gives the same layout.
pub proof fn lemma_placement_round_trip(l: Seq<Option<Occupant>>, rest: Seq<char>)
    requires
        l.len() == 64,
    ensures
        placement_of(placement_text(l)) == Some(l),
        placement_of(placement_text(l) + seq![' '] + rest) == Some(l),
{
    let init = Some((Seq::<Option<Occupant>>::empty(), ScanState { column: 0, ended: false }));
    lemma_scan_rows(l, 8);
    assert(l.take(64) =~= l);
    let t = placement_text(l);
    lemma_scan_from_append(init, t + seq![' '], rest);
    lemma_scan_from_append(init, t, seq![' ']);
    lemma_scan_one(Some((l, ScanState { column: 8, ended: false })), ' ');
    lemma_scan_ended(l, 8, rest);
}

/// Reads the placement field of a FEN text into a layout.
pub fn parse_placement(text: &Vec<char>) -> (r: Option<Vec<Option<Occupant>>>)
    ensures
        r matches Some(v) ==> placement_of(text@) == Some(v@),
        r is None ==> placement_of(text@) is None,
{
    let mut squares: Vec<Option<Occupant>> = Vec::new();
    let mut column: u32 = 0;
    let mut ended = false;
    let mut i: usize = 0;
    while i < text.len()
        invariant
            i <= text@.len(),
            scan(text@.take(i as int)) == Some((squares@, ScanState { column, ended })),
            column <= 8,
            squares@.len() <= 64,
        decreases text@.len() - i,
    {
        let c = text[i];
        assert(text@.take(i as int + 1).drop_last() == text@.take(i as int));
        if !ended {
            if c == ' ' {
                ended = true;
            } else if c == '/' {
                if column != 8 {
                    proof { lemma_none_stays(text@, i as int + 1); }
                    return None;
                }
                column = 0;
            } else if '1' <= c && c <= '8' {
                let n: u32 = c as u32 - '0' as u32;
                if column + n > 8 || squares.len() + (n as usize) > 64 {
                    proof {
                        if column + n <= 8 {
                            lemma_long_fails(text@, i as int + 1);
                        } else {
                            lemma_none_stays(text@, i as int + 1);
                        }
                    }
                    return None;
                }
                let ghost start = squares@;
                let mut k: u32 = 0;
                while k < n
                    invariant
                        k <= n,
                        squares@ == start + Seq::new(k as nat, |j: int| None::<Occupant>),
                    decreases n - k,
                {
                    squares.push(None);
                    k = k + 1;
                    assert(squares@ =~= start + Seq::new(k as nat, |j: int| None::<Occupant>));
                }
                column = column + n;
            } else {
                match occupant_from_char(c) {
                    Some(o) => {
                        if column >= 8 {
                            proof { lemma_none_stays(text@, i as int + 1); }
                            return None;
                        }
                        if squares.len() >= 64 {
                            proof { lemma_long_fails(text@, i as int + 1); }
                            return None;
                        }
                        squares.push(Some(o));
                        column = column + 1;
                    },
                    None => {
                        proof { lemma_none_stays(text@, i as int + 1); }
                        return None;
                    },
                }
            }
        }
        i = i + 1;
    }
    assert(text@.take(text@.len() as int) == text@);
    if squares.len() == 64 && column == 8 {
        Some(squares)
    } else {
        None
    }
}

/// Writes the placement field of a layout: rows from rank eight down,
/// separated by `/`, a letter per piece and a digit per run of empty squares.
pub fn write_placement(layout: &Vec<Option<Occupant>>) -> (r: Vec<char>)
    requires
        layout@.len() == 64,
    ensures
        r@ == placement_text(layout@),
{
    let ghost l = layout@;
    let mut out: Vec<char> = Vec::new();
    let mut row: usize = 0;
    while row < 8
        invariant
            layout@ == l,
            l.len() == 64,
            row <= 8,
            out@ == rows_text(l, row as nat),
        decreases 8 - row,
    {
        if row > 0 {
            out.push('/');
        }
        let ghost base = out@;
        let ghost cells = row_of(l, row as int);
        let mut run: u32 = 0;
        let mut file: usize = 0;
        assert(cells.subrange(0, 8) =~= cells);
        while file < 8
            invariant
                layout@ == l,
                l.len() == 64,
                row < 8,
                cells == row_of(l, row as int),
                file <= 8,
                run <= file,
                base + row_text(cells, 0) == out@ + row_text(cells.subrange(file as int, 8), run as nat),
            decreases 8 - file,
        {
            let ghost rest = cells.subrange(file as int, 8);
            assert(rest.drop_first() =~= cells.subrange(file as int + 1, 8));
            assert(rest[0] == layout@[row * 8 + file]);
            match layout[row * 8 + file] {
                None => {
                    run = run + 1;
                },
                Some(o) => {
                    let ghost before = out@;
                    if run > 0 {
                        let d = (48 + run as u8) as char;
                        assert(d == digit_char(run as nat));
                        out.push(d);
                    }
                    assert(out@ == before + run_text(run as nat));
                    out.push(occupant_to_char(o));
                    assert(base + row_text(cells, 0) == out@ + row_text(
                        cells.subrange(file as int + 1, 8),
                        0,
                    )) by {
                        assert(before + (run_text(run as nat) + seq![occupant_char(o)] + row_text(
                            rest.drop_first(),
                            0,
                        )) =~= out@ + row_text(rest.drop_first(), 0));
                    }
                    run = 0;
                },
            }
            file = file + 1;
        }
        let ghost before = out@;
        if run > 0 {
            let d = (48 + run as u8) as char;
            assert(d == digit_char(run as nat));
            out.push(d);
        }
        assert(cells.subrange(8, 8).len() == 0);
        assert(out@ =~= before + run_text(run as nat));
        assert(out@ =~= rows_text(l, row as nat + 1));
        row = row + 1;
    }
    out
}

} // verus!
