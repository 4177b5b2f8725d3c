//! The run-length table codec.
//!
//! A table is a header row followed by one row per frame. The first two
//! columns hold the duration and the direction; every further column holds
//! the state of the button that the header names.

use crate::button_map::StrMap;
use crate::decimal::{decimal_digits, format_u32, parse_decimal, parse_u32, parse_u8};
use crate::types::{frame_views, texts, ButtonMap, FrameView, InputFrame};
use vstd::prelude::*;
use vstd::string::StringExecFns;

verus! {

/// Why a table was rejected.
#[derive(Debug, Clone, Copy, PartialEq, Eq, Structural)]
pub enum LoadError {
    /// The text is no table, or a row lacks its duration or direction column.
    MalformedInput,
    /// A duration or a direction is no unsigned integer of its size.
    ParseError,
    /// A duration is zero.
    ZeroDuration,
}

impl LoadError {
    /// The error's message.
    pub fn message(&self) -> (r: &'static str)
        ensures
            r@ == match *self {
                LoadError::MalformedInput => "malformed input table"@,
                LoadError::ParseError => "duration or direction is not a number"@,
                LoadError::ZeroDuration => "a frame has duration zero"@,
            },
    {
        match self {
            LoadError::MalformedInput => "malformed input table",
            LoadError::ParseError => "duration or direction is not a number",
            LoadError::ZeroDuration => "a frame has duration zero",
        }
    }
}

/// The cells of a table, as texts.
pub open spec fn table_view(rows: Seq<Vec<String>>) -> Seq<Seq<Seq<char>>> {
    Seq::new(rows.len(), |i: int| texts(rows[i]@))
}

/// A cell read as a `u32`.
pub open spec fn cell_u32(cell: Seq<char>) -> Option<u32> {
    match parse_decimal(cell, u32::MAX as nat) {
        Some(v) => Some(v as u32),
        None => None,
    }
}

/// A cell read as a `u8`.
pub open spec fn cell_u8(cell: Seq<char>) -> Option<u8> {
    match parse_decimal(cell, u8::MAX as nat) {
        Some(v) => Some(v as u8),
        None => None,
    }
}

/// The button states that a row gives for the header columns before `upto`.
/// Button columns start at index 2. A column whose cell is missing from the
/// row, or is no `u8`, gives no entry, so the button reads as released.
pub open spec fn row_buttons(header: Seq<Seq<char>>, row: Seq<Seq<char>>, upto: int) -> Map<
    Seq<char>,
    u8,
>
    decreases upto,
{
    if upto <= 2 {
        Map::empty()
    } else {
        let rest = row_buttons(header, row, upto - 1);
        let i = upto - 1;
        if i < row.len() && cell_u8(row[i]) is Some {
            rest.insert(header[i], cell_u8(row[i])->0)
        } else {
            rest
        }
    }
}

/// The frame that a row stands for under a header, or why it is rejected.
pub open spec fn decode_row(header: Seq<Seq<char>>, row: Seq<Seq<char>>) -> Result<
    FrameView,
    LoadError,
> {
    if row.len() < 1 {
        Err(LoadError::MalformedInput)
    } else if cell_u32(row[0]) is None {
        Err(LoadError::ParseError)
    } else if cell_u32(row[0]) == Some(0u32) {
        Err(LoadError::ZeroDuration)
    } else if row.len() < 2 {
        Err(LoadError::MalformedInput)
    } else if cell_u8(row[1]) is None {
        Err(LoadError::ParseError)
    } else {
        Ok(
            FrameView::digital(
                cell_u32(row[0])->0,
                cell_u8(row[1])->0,
                row_buttons(header, row, header.len() as int),
            ),
        )
    }
}

/// The frames that rows stand for under a header. The first row that is
/// rejected rejects them all, with its error.
pub open spec fn decode_rows(header: Seq<Seq<char>>, rows: Seq<Seq<Seq<char>>>) -> Result<
    Seq<FrameView>,
    LoadError,
>
    decreases rows.len(),
{
    if rows.len() == 0 {
        Ok(Seq::empty())
    } else {
        match decode_rows(header, rows.drop_last()) {
            Err(e) => Err(e),
            Ok(frames) => match decode_row(header, rows.last()) {
                Err(e) => Err(e),
                Ok(frame) => Ok(frames.push(frame)),
            },
        }
    }
}

/// The sequence that a table stands for: its first row is the header, the
/// others are frames. A table without any row is the empty sequence.
pub open spec fn decode_table(table: Seq<Seq<Seq<char>>>) -> Result<Seq<FrameView>, LoadError> {
    if table.len() == 0 {
        Ok(Seq::empty())
    } else {
        decode_rows(table[0], table.subrange(1, table.len() as int))
    }
}

/// The button names of a header: all columns but the first two.
pub open spec fn header_buttons(header: Seq<Seq<char>>) -> Seq<Seq<char>> {
    if header.len() <= 2 {
        Seq::empty()
    } else {
        header.subrange(2, header.len() as int)
    }
}

/// The state that a frame gives for a button: released where it has none.
pub open spec fn button_state(frame: FrameView, name: Seq<char>) -> u8 {
    if frame.buttons.contains_key(name) {
        frame.buttons[name]
    } else {
        0
    }
}

/// The header row for a column order.
pub open spec fn encode_header(order: Seq<Seq<char>>) -> Seq<Seq<char>> {
    seq!["duration"@, "direction"@] + order
}

/// The row of a frame under a column order.
pub open spec fn encode_row(frame: FrameView, order: Seq<Seq<char>>) -> Seq<Seq<char>> {
    seq![decimal_digits(frame.duration as nat), decimal_digits(frame.direction as nat)] + Seq::new(
        order.len(),
        |j: int| decimal_digits(button_state(frame, order[j]) as nat),
    )
}

/// The table of a sequence under a column order: the header, then one row per
/// frame.
pub open spec fn encode_table(frames: Seq<FrameView>, order: Seq<Seq<char>>) -> Seq<
    Seq<Seq<char>>,
> {
    seq![encode_header(order)] + Seq::new(frames.len(), |i: int| encode_row(frames[i], order))
}

fn decode_one(header: &Vec<String>, row: &Vec<String>) -> (r: Result<InputFrame, LoadError>)
    ensures
        match r {
            Ok(frame) => decode_row(texts(header@), texts(row@)) == Ok::<FrameView, LoadError>(
                frame@,
            ),
            Err(e) => decode_row(texts(header@), texts(row@)) == Err::<FrameView, LoadError>(e),
        },
{
    let ghost h = texts(header@);
    let ghost cells = texts(row@);
    if row.len() < 1 {
        return Err(LoadError::MalformedInput);
    }
    let duration = match parse_u32(row[0].as_str()) {
        Some(v) => v,
        None => {
            return Err(LoadError::ParseError);
        },
    };
    if duration == 0 {
        return Err(LoadError::ZeroDuration);
    }
    if row.len() < 2 {
        return Err(LoadError::MalformedInput);
    }
    let direction = match parse_u8(row[1].as_str()) {
        Some(v) => v,
        None => {
            return Err(LoadError::ParseError);
        },
    };
    let mut buttons: ButtonMap = StrMap::new();
    let n = header.len();
    let mut i: usize = 2;
    while i < n
        invariant
            2 <= i,
            n == header@.len(),
            h == texts(header@),
            cells == texts(row@),
            buttons@ == row_buttons(h, cells, if i <= n { i as int } else { n as int }),
        decreases n - i,
    {
        if i < row.len() {
            match parse_u8(row[i].as_str()) {
                Some(v) => {
                    buttons.insert(header[i].clone(), v);
                },
                None => {},
            }
        }
        i = i + 1;
    }
    Ok(InputFrame::new(duration, direction, buttons))
}

/// Decodes a table into a sequence of frames.
///
/// The first row is the header. Every other row must hold a duration of at
/// least 1 and a direction; button cells that are missing or are no number
/// read as released. One rejected row rejects the whole table.
pub fn decode(rows: &Vec<Vec<String>>) -> (r: Result<Vec<InputFrame>, LoadError>)
    ensures
        match r {
            Ok(frames) => decode_table(table_view(rows@)) == Ok::<Seq<FrameView>, LoadError>(
                frame_views(frames@),
            ),
            Err(e) => decode_table(table_view(rows@)) == Err::<Seq<FrameView>, LoadError>(e),
        },
{
    let mut frames: Vec<InputFrame> = Vec::new();
    let n = rows.len();
    if n == 0 {
        assert(frame_views(frames@) =~= Seq::<FrameView>::empty());
        return Ok(frames);
    }
    let ghost table = table_view(rows@);
    let ghost h = table[0];
    let ghost body = table.subrange(1, n as int);
    let header = &rows[0];
    let mut i: usize = 1;
    assert(body.subrange(0, 0) =~= Seq::<Seq<Seq<char>>>::empty());
    assert(frame_views(frames@) =~= Seq::<FrameView>::empty());
    while i < n
        invariant
            1 <= i <= n,
            n == rows@.len(),
            table == table_view(rows@),
            h == texts(header@),
            h == table[0],
            body == table.subrange(1, n as int),
            decode_rows(h, body.subrange(0, i - 1)) == Ok::<Seq<FrameView>, LoadError>(
                frame_views(frames@),
            ),
        decreases n - i,
    {
        let ghost done = frame_views(frames@);
        assert(body.subrange(0, i as int).drop_last() =~= body.subrange(0, i - 1));
        assert(body.subrange(0, i as int).last() == texts(rows@[i as int]@));
        match decode_one(header, &rows[i]) {
            Ok(frame) => {
                frames.push(frame);
                assert(frame_views(frames@) =~= done.push(frame@));
            },
            Err(e) => {
                proof {
                    assert(decode_rows(h, body.subrange(0, i as int)) == Err::<
                        Seq<FrameView>,
                        LoadError,
                    >(e));
                    lemma_decode_rows_error(h, body, i as int);
                }
                return Err(e);
            },
        }
        i = i + 1;
    }
    assert(body.subrange(0, n - 1) =~= body);
    Ok(frames)
}

/// Once a prefix of the rows is rejected, the rows are rejected with the same
/// error.
proof fn lemma_decode_rows_error(header: Seq<Seq<char>>, rows: Seq<Seq<Seq<char>>>, k: int)
    requires
        0 <= k <= rows.len(),
        decode_rows(header, rows.subrange(0, k)) is Err,
    ensures
        decode_rows(header, rows) == decode_rows(header, rows.subrange(0, k)),
    decreases rows.len() - k,
{
    if k == rows.len() {
        assert(rows.subrange(0, k) =~= rows);
    } else {
        assert(rows.drop_last().subrange(0, k) =~= rows.subrange(0, k));
        lemma_decode_rows_error(header, rows.drop_last(), k);
    }
}

/// Encodes a sequence as a table under a column order: a header row, then
/// one row per frame with the duration, the direction and, for each name of
/// the order, the frame's state of that button (0 where the frame has none).
pub fn encode(frames: &Vec<InputFrame>, order: &Vec<String>) -> (r: Vec<Vec<String>>)
    ensures
        table_view(r@) == encode_table(frame_views(frames@), texts(order@)),
{
    let ghost names = texts(order@);
    let ghost views = frame_views(frames@);
    let mut rows: Vec<Vec<String>> = Vec::new();
    let m = order.len();
    let mut header: Vec<String> = Vec::new();
    header.push(String::from_str("duration"));
    header.push(String::from_str("direction"));
    let mut j: usize = 0;
    while j < m
        invariant
            j <= m,
            m == order@.len(),
            names == texts(order@),
            texts(header@) == seq!["duration"@, "direction"@] + names.subrange(0, j as int),
        decreases m - j,
    {
        let ghost before = texts(header@);
        header.push(order[j].clone());
        assert(texts(header@) =~= before.push(names[j as int]));
        j = j + 1;
    }
    assert(names.subrange(0, m as int) =~= names);
    rows.push(header);
    let n = frames.len();
    let mut i: usize = 0;
    assert(table_view(rows@) =~= seq![encode_header(names)] + Seq::new(
        0,
        |i: int| encode_row(views[i], names),
    ));
    while i < n
        invariant
            i <= n,
            n == frames@.len(),
            m == order@.len(),
            names == texts(order@),
            views == frame_views(frames@),
            table_view(rows@) == seq![encode_header(names)] + Seq::new(
                i as nat,
                |i: int| encode_row(views[i], names),
            ),
        decreases n - i,
    {
        let frame = &frames[i];
        let ghost before = table_view(rows@);
        let mut row: Vec<String> = Vec::new();
        row.push(format_u32(frame.duration));
        row.push(format_u32(frame.direction as u32));
        let mut j: usize = 0;
        while j < m
            invariant
                j <= m,
                m == order@.len(),
                names == texts(order@),
                texts(row@) == seq![
                    decimal_digits(frame@.duration as nat),
                    decimal_digits(frame@.direction as nat),
                ] + Seq::new(
                    j as nat,
                    |j: int| decimal_digits(button_state(frame@, names[j]) as nat),
                ),
            decreases m - j,
        {
            let ghost cells = texts(row@);
            let state: u8 = match frame.buttons.get(order[j].as_str()) {
                Some(v) => *v,
                None => 0,
            };
            row.push(format_u32(state as u32));
            assert(texts(row@) =~= cells.push(
                decimal_digits(button_state(frame@, names[j as int]) as nat),
            ));
            j = j + 1;
        }
        assert(texts(row@) =~= encode_row(views[i as int], names));
        rows.push(row);
        assert(table_view(rows@) =~= before.push(encode_row(views[i as int], names)));
        i = i + 1;
    }
    rows
}

/// Whether a frame is one that a table under `order` can hold: a duration of
/// at least 1, the analog fields at rest, and exactly the buttons of the
/// column order.
pub open spec fn fits_table(frame: FrameView, order: Seq<Seq<char>>) -> bool {
    &&& frame.duration >= 1
    &&& frame == FrameView::digital(frame.duration, frame.direction, frame.buttons)
    &&& forall|name: Seq<char>| frame.buttons.contains_key(name) <==> order.contains(name)
}

/// The button states of a frame for the first `m` names of a column order.
spec fn leading_buttons(frame: FrameView, order: Seq<Seq<char>>, m: int) -> Map<Seq<char>, u8> {
    Map::new(
        |name: Seq<char>| exists|j: int| 0 <= j < m && order[j] == name,
        |name: Seq<char>| button_state(frame, name),
    )
}

proof fn lemma_row_buttons_of_encoded(frame: FrameView, order: Seq<Seq<char>>, upto: int)
    requires
        2 <= upto <= order.len() + 2,
    ensures
        row_buttons(encode_header(order), encode_row(frame, order), upto) == leading_buttons(
            frame,
            order,
            upto - 2,
        ),
    decreases upto,
{
    let header = encode_header(order);
    let row = encode_row(frame, order);
    let got = row_buttons(header, row, upto);
    let want = leading_buttons(frame, order, upto - 2);
    if upto == 2 {
        assert(got =~= want);
    } else {
        lemma_row_buttons_of_encoded(frame, order, upto - 1);
        let i = upto - 1;
        let name = order[i - 2];
        let state = button_state(frame, name);
        assert(header[i] == name);
        assert(row[i] == decimal_digits(state as nat));
        crate::decimal::lemma_parse_decimal_digits(state as nat, u8::MAX as nat);
        assert(cell_u8(row[i]) == Some(state));
        let rest = leading_buttons(frame, order, upto - 3);
        assert(got == rest.insert(name, state));
        assert forall|k: Seq<char>| want.contains_key(k) <==> rest.insert(name, state).contains_key(
            k,
        ) by {
            if want.contains_key(k) {
                let j = choose|j: int| 0 <= j < upto - 2 && order[j] == k;
                if j < upto - 3 {
                    assert(rest.contains_key(k));
                }
            }
            if rest.contains_key(k) {
                let j = choose|j: int| 0 <= j < upto - 3 && order[j] == k;
                assert(0 <= j < upto - 2 && order[j] == k);
            }
            if k == name {
                assert(0 <= i - 2 < upto - 2 && order[i - 2] == k);
            }
        }
        assert(got =~= want);
    }
}

proof fn lemma_decode_encoded_row(frame: FrameView, order: Seq<Seq<char>>)
    requires
        fits_table(frame, order),
    ensures
        decode_row(encode_header(order), encode_row(frame, order)) == Ok::<FrameView, LoadError>(
            frame,
        ),
{
    let header = encode_header(order);
    let row = encode_row(frame, order);
    crate::decimal::lemma_parse_decimal_digits(frame.duration as nat, u32::MAX as nat);
    crate::decimal::lemma_parse_decimal_digits(frame.direction as nat, u8::MAX as nat);
    assert(row[0] == decimal_digits(frame.duration as nat));
    assert(row[1] == decimal_digits(frame.direction as nat));
    lemma_row_buttons_of_encoded(frame, order, order.len() as int + 2);
    let got = row_buttons(header, row, header.len() as int);
    assert forall|k: Seq<char>| got.contains_key(k) <==> frame.buttons.contains_key(k) by {
        if got.contains_key(k) {
            let j = choose|j: int| 0 <= j < order.len() && order[j] == k;
            assert(order.contains(k));
        }
        if frame.buttons.contains_key(k) {
            assert(order.contains(k));
            let j = choose|j: int| 0 <= j < order.len() && order[j] == k;
            assert(0 <= j < order.len() && order[j] == k);
        }
    }
    assert(got =~= frame.buttons);
}

/// Round trip: the table of a sequence decodes to that sequence, whenever
/// every frame fits the table's column order.
pub proof fn lemma_decode_encode(frames: Seq<FrameView>, order: Seq<Seq<char>>)
    requires
        forall|i: int| 0 <= i < frames.len() ==> fits_table(#[trigger] frames[i], order),
    ensures
        decode_table(encode_table(frames, order)) == Ok::<Seq<FrameView>, LoadError>(frames),
{
    let table = encode_table(frames, order);
    let header = encode_header(order);
    let body = table.subrange(1, table.len() as int);
    assert(table[0] == header);
    lemma_decode_encoded_rows(frames, order, frames.len() as int);
    assert(body =~= Seq::new(frames.len(), |i: int| encode_row(frames[i], order)));
    assert(frames.subrange(0, frames.len() as int) =~= frames);
}

proof fn lemma_decode_encoded_rows(frames: Seq<FrameView>, order: Seq<Seq<char>>, k: int)
    requires
        0 <= k <= frames.len(),
        forall|i: int| 0 <= i < frames.len() ==> fits_table(#[trigger] frames[i], order),
    ensures
        decode_rows(
            encode_header(order),
            Seq::new(k as nat, |i: int| encode_row(frames[i], order)),
        ) == Ok::<Seq<FrameView>, LoadError>(frames.subrange(0, k)),
    decreases k,
{
    let rows = Seq::new(k as nat, |i: int| encode_row(frames[i], order));
    if k == 0 {
        assert(frames.subrange(0, 0) =~= Seq::<FrameView>::empty());
    } else {
        lemma_decode_encoded_rows(frames, order, k - 1);
        assert(rows.drop_last() =~= Seq::new((k - 1) as nat, |i: int| encode_row(frames[i], order)));
        assert(rows.last() == encode_row(frames[k - 1], order));
        lemma_decode_encoded_row(frames[k - 1], order);
        assert(frames.subrange(0, k - 1).push(frames[k - 1]) =~= frames.subrange(0, k));
    }
}

/// The cells of a row as one line: the cells with a comma between them.
pub open spec fn join_cells(cells: Seq<Seq<char>>) -> Seq<char>
    decreases cells.len(),
{
    if cells.len() == 0 {
        Seq::empty()
    } else if cells.len() == 1 {
        cells[0]
    } else {
        join_cells(cells.drop_last()) + seq![','] + cells.last()
    }
}

/// A table as text: each row as a line, each line ended by a line feed.
pub open spec fn render_table(rows: Seq<Seq<Seq<char>>>) -> Seq<char>
    decreases rows.len(),
{
    if rows.len() == 0 {
        Seq::empty()
    } else {
        render_table(rows.drop_last()) + join_cells(rows.last()) + seq!['\n']
    }
}

/// Writes a table as text, one line per row, the cells separated by commas.
/// Cells are written as they are, without quoting.
pub fn render(rows: &Vec<Vec<String>>) -> (r: String)
    ensures
        r@ == render_table(table_view(rows@)),
{
    proof {
        reveal_strlit(",");
        reveal_strlit("\n");
    }
    let ghost table = table_view(rows@);
    let mut text = String::new();
    let n = rows.len();
    let mut i: usize = 0;
    assert(table.subrange(0, 0) =~= Seq::<Seq<Seq<char>>>::empty());
    while i < n
        invariant
            i <= n,
            n == rows@.len(),
            table == table_view(rows@),
            text@ == render_table(table.subrange(0, i as int)),
            ","@ == seq![','],
            "\n"@ == seq!['\n'],
        decreases n - i,
    {
        let row = &rows[i];
        let ghost cells = texts(row@);
        let ghost start = text@;
        let m = row.len();
        let mut j: usize = 0;
        assert(cells.subrange(0, 0) =~= Seq::<Seq<char>>::empty());
        assert(text@ =~= start + join_cells(cells.subrange(0, 0)));
        while j < m
            invariant
                j <= m,
                m == row@.len(),
                cells == texts(row@),
                text@ == start + join_cells(cells.subrange(0, j as int)),
                ","@ == seq![','],
            decreases m - j,
        {
            let ghost done = cells.subrange(0, j as int);
            let ghost next = cells.subrange(0, j + 1);
            assert(next.drop_last() =~= done);
            assert(next.last() == row@[j as int]@);
            if j > 0 {
                text.append(",");
            }
            text.append(row[j].as_str());
            assert(text@ =~= start + join_cells(next));
            j = j + 1;
        }
        assert(cells.subrange(0, m as int) =~= cells);
        text.append("\n");
        assert(table.subrange(0, i + 1).drop_last() =~= table.subrange(0, i as int));
        assert(table.subrange(0, i + 1).last() == cells);
        assert(text@ =~= render_table(table.subrange(0, i + 1)));
        i = i + 1;
    }
    assert(table.subrange(0, n as int) =~= table);
    text
}

/// Writes a sequence as table text under a column order.
pub fn encode_csv(frames: &Vec<InputFrame>, order: &Vec<String>) -> (r: String)
    ensures
        r@ == render_table(encode_table(frame_views(frames@), texts(order@))),
{
    let rows = encode(frames, order);
    render(&rows)
}

/// The rows that the CSV reader yields for a text, header first, or `None`
/// where the reader reports an error.
pub uninterp spec fn csv_table(bytes: Seq<u8>) -> Option<Seq<Seq<Seq<char>>>>;

/// `csv::Error`, the error of the CSV reader. It is carried as it is and
/// stands for `MalformedInput`; nothing is known of what it holds.
#[verifier::external_type_specification]
#[verifier::external_body]
pub struct ExCsvError(csv::Error);

/// Reads `bytes` with a `csv::Reader` made by `csv::ReaderBuilder` with
/// headers enabled and every other setting at its default: the row of
/// `Reader::headers`, then the rows of `Reader::records` up to the first
/// error. The contract only names the outcome; it claims that the outcome is
/// a function of the bytes.
#[verifier::external_body]
fn read_table(bytes: &[u8]) -> (r: Result<Vec<Vec<String>>, csv::Error>)
    ensures
        match r {
            Ok(rows) => csv_table(bytes@) == Some(table_view(rows@)),
            Err(_) => csv_table(bytes@) is None,
        },
{
    let mut reader = csv::ReaderBuilder::new().has_headers(true).from_reader(bytes);
    let mut rows: Vec<Vec<String>> = Vec::new();
    rows.push(reader.headers()?.iter().map(String::from).collect());
    for record in reader.records() {
        rows.push(record?.iter().map(String::from).collect());
    }
    Ok(rows)
}

/// The sequence that table text stands for.
pub open spec fn load_result(bytes: Seq<u8>) -> Result<Seq<FrameView>, LoadError> {
    match csv_table(bytes) {
        Some(table) => decode_table(table),
        None => Err(LoadError::MalformedInput),
    }
}

/// Loads a sequence from table text. Text that the CSV reader rejects is
/// `MalformedInput`; the rows it yields are decoded as `decode` does.
pub fn load_csv(bytes: &[u8]) -> (r: Result<Vec<InputFrame>, LoadError>)
    ensures
        match r {
            Ok(frames) => load_result(bytes@) == Ok::<Seq<FrameView>, LoadError>(
                frame_views(frames@),
            ),
            Err(e) => load_result(bytes@) == Err::<Seq<FrameView>, LoadError>(e),
        },
{
    match read_table(bytes) {
        Ok(rows) => decode(&rows),
        Err(_) => Err(LoadError::MalformedInput),
    }
}

/// The button names of table text: the header's columns after the first two.
pub open spec fn button_names_result(bytes: Seq<u8>) -> Result<Seq<Seq<char>>, LoadError> {
    match csv_table(bytes) {
        Some(table) => if table.len() == 0 {
            Ok(Seq::empty())
        } else {
            Ok(header_buttons(table[0]))
        },
        None => Err(LoadError::MalformedInput),
    }
}

/// The button names of a table: the header's columns after the first two.
pub fn button_names(rows: &Vec<Vec<String>>) -> (r: Vec<String>)
    ensures
        texts(r@) == if rows@.len() == 0 {
            Seq::<Seq<char>>::empty()
        } else {
            header_buttons(table_view(rows@)[0])
        },
{
    let mut names: Vec<String> = Vec::new();
    if rows.len() == 0 {
        assert(texts(names@) =~= Seq::<Seq<char>>::empty());
        return names;
    }
    let header = &rows[0];
    let ghost h = texts(header@);
    let n = header.len();
    let mut i: usize = 2;
    assert(texts(names@) =~= Seq::<Seq<char>>::empty());
    if n <= 2 {
        return names;
    }
    assert(h.subrange(2, 2) =~= Seq::<Seq<char>>::empty());
    while i < n
        invariant
            2 <= i <= n,
            n == header@.len(),
            h == texts(header@),
            texts(names@) == h.subrange(2, i as int),
        decreases n - i,
    {
        let ghost before = texts(names@);
        names.push(header[i].clone());
        assert(texts(names@) =~= before.push(h[i as int]));
        assert(h.subrange(2, i + 1) =~= before.push(h[i as int]));
        i = i + 1;
    }
    names
}

/// Reads the button names of table text.
pub fn get_csv_button_names(bytes: &[u8]) -> (r: Result<Vec<String>, LoadError>)
    ensures
        match r {
            Ok(names) => button_names_result(bytes@) == Ok::<Seq<Seq<char>>, LoadError>(
                texts(names@),
            ),
            Err(e) => button_names_result(bytes@) == Err::<Seq<Seq<char>>, LoadError>(e),
        },
{
    match read_table(bytes) {
        Ok(rows) => Ok(button_names(&rows)),
        Err(_) => Err(LoadError::MalformedInput),
    }
}

} // verus!
