//! One window: a fixed character grid with a cursor, a state machine over
//! the window's modes, a private file directory, and the bridge that feeds
//! ticks and queued input to the window's running program.

use vstd::prelude::*;
use vstd::string::StrSliceExecFns;
use vstd::string::StringSliceAdditionalSpecFns;
use crate::WINDOW_WIDTH;
use crate::WINDOW_HEIGHT;
use crate::SCREEN_WIDTH;
use crate::SCREEN_HEIGHT;
use crate::MAX_FILE_BYTES;
use crate::MAX_FILENAME_BYTES;
use crate::screen::Screen;
use crate::screen::Color;
use crate::storage::FileDirectory;
use crate::storage::bytes_clone;
use crate::interp::Interpreter;
use crate::interp::TickResult;

verus! {

/// What a window is doing.
#[derive(Clone, Copy, PartialEq, Eq, Structural, Debug)]
pub enum WindowStatus {
    /// Showing its directory listing; arrows pick a file, `e` edits, `r` runs.
    DisplayingFiles,
    /// Editing the picked file in the grid.
    EditingFile,
    /// A program is running and may be granted ticks.
    ExecutingFile,
    /// The program asked for a line of input and waits for its newline.
    AwaitingInput,
    /// The program is over; its output stays until dismissed.
    DisplayingOutput,
}

/// One keyboard event, as the host hands it over.
#[derive(Clone, Copy, PartialEq, Eq, Structural, Debug)]
pub enum KeyInput {
    /// A key with a character meaning; includes newline and backspace.
    Unicode(char),
    F1,
    F2,
    F3,
    F4,
    F5,
    F6,
    ArrowUp,
    ArrowDown,
    ArrowLeft,
    ArrowRight,
    /// Any other raw key; always ignored.
    OtherRaw,
}

/// A key with a printable meaning: the ASCII range a window accepts.
pub open spec fn printable_key(c: char) -> bool {
    0x20 <= c as u32 <= 0x7e
}

/// The length of a grid row's text: its cells before the first empty one.
pub open spec fn row_len(s: Seq<u8>) -> int
    decreases s.len(),
{
    if s.len() == 0 {
        0
    } else if s[0] == 0 {
        0
    } else {
        1 + row_len(s.drop_first())
    }
}

/// The text of a grid row.
pub open spec fn row_text(s: Seq<u8>) -> Seq<u8> {
    s.take(row_len(s))
}

/// A row with no text.
pub open spec fn row_empty(s: Seq<u8>) -> bool {
    s.len() == 0 || s[0] == 0
}

/// The serialized text of the rows before `r`: each non-empty row's text,
/// a newline between consecutive non-empty rows and none after the last.
pub open spec fn serialize_upto(grid: Seq<Seq<u8>>, r: int) -> Seq<u8>
    decreases r,
{
    if r <= 0 {
        Seq::empty()
    } else {
        let acc = serialize_upto(grid, r - 1);
        if row_empty(grid[r - 1]) {
            acc
        } else if acc.len() > 0 {
            acc + seq![0x0au8] + row_text(grid[r - 1])
        } else {
            row_text(grid[r - 1])
        }
    }
}

/// The lines of a byte text, split on newline; the empty text is one empty
/// line.
pub open spec fn split_lines(b: Seq<u8>) -> Seq<Seq<u8>>
    decreases b.len(),
{
    if b.len() == 0 {
        seq![Seq::<u8>::empty()]
    } else if b[0] == 0x0a {
        seq![Seq::<u8>::empty()] + split_lines(b.drop_first())
    } else {
        let rest = split_lines(b.drop_first());
        seq![seq![b[0]] + rest[0]] + rest.drop_first()
    }
}

/// Line `r` of a split text; empty past the end.
pub open spec fn line_at(lines: Seq<Seq<u8>>, r: int) -> Seq<u8> {
    if 0 <= r < lines.len() {
        lines[r]
    } else {
        Seq::empty()
    }
}

/// A text line as a grid row: clipped to the window width, padded with
/// empty cells.
pub open spec fn loaded_row(line: Seq<u8>) -> Seq<u8> {
    Seq::new(
        WINDOW_WIDTH as nat,
        |c: int| if c < line.len() && c < WINDOW_WIDTH { line[c] } else { 0 },
    )
}

/// One window of the workspace.
pub struct SwimDocument {
    letters: Vec<Vec<u8>>,
    num_letters: usize,
    start_col: usize,
    start_row: usize,
    current_row: usize,
    cursor_position: usize,
    active: bool,
    file_system: FileDirectory,
    window_status: WindowStatus,
    active_file: usize,
    program_running: bool,
    output_line: usize,
    pending_line: Option<Vec<u8>>,
    current_editing_file: Vec<u8>,
    input_row: usize,
}

impl SwimDocument {
    /// The character grid, row by row.
    pub closed spec fn grid(self) -> Seq<Seq<u8>> {
        self.letters@.map(|i: int, row: Vec<u8>| row@)
    }

    /// The cursor's column on the current row.
    pub closed spec fn cursor(self) -> int {
        self.cursor_position as int
    }

    /// How many letters the current row is reckoned to hold.
    pub closed spec fn letters_count(self) -> int {
        self.num_letters as int
    }

    /// The row the cursor stands on.
    pub closed spec fn row(self) -> int {
        self.current_row as int
    }

    /// The window's mode.
    pub closed spec fn status(self) -> WindowStatus {
        self.window_status
    }

    /// The window carries the highlight.
    pub closed spec fn is_active(self) -> bool {
        self.active
    }

    /// The stored files of this window's own directory.
    pub closed spec fn files(self) -> Map<Seq<u8>, Seq<u8>> {
        self.file_system.content()
    }

    /// The filenames of this window's own directory, in creation order.
    pub closed spec fn dir(self) -> Seq<Seq<u8>> {
        self.file_system.dir()
    }

    /// The index of the highlighted directory entry.
    pub closed spec fn picked_file(self) -> int {
        self.active_file as int
    }

    /// A program of this window is running.
    pub closed spec fn running(self) -> bool {
        self.program_running
    }

    /// The row the next printed line lands on.
    pub closed spec fn out_line(self) -> int {
        self.output_line as int
    }

    /// The composed input line waiting to be delivered, if any.
    pub closed spec fn pending(self) -> Option<Seq<u8>> {
        match self.pending_line {
            Some(v) => Some(v@),
            None => None,
        }
    }

    /// The name the edited text will be saved under; empty if none.
    pub closed spec fn editing_name(self) -> Seq<u8> {
        self.current_editing_file@
    }

    /// The screen column of the window's top-left text cell.
    pub closed spec fn origin_col(self) -> int {
        self.start_col as int
    }

    /// The screen row of the window's top-left text cell.
    pub closed spec fn origin_row(self) -> int {
        self.start_row as int
    }

    /// The grid has its fixed dimensions, the cursor and row bookkeeping
    /// stay inside them, the window sits fully on the screen with room for
    /// its outline, and the directory is sound with at least one file.
    pub closed spec fn wf(self) -> bool {
        &&& self.letters@.len() == WINDOW_HEIGHT
        &&& forall|r: int|
            0 <= r < self.letters@.len() ==> (#[trigger] self.letters@[r])@.len() == WINDOW_WIDTH
        &&& 0 <= self.cursor_position <= self.num_letters <= WINDOW_WIDTH
        &&& self.current_row < WINDOW_HEIGHT
        &&& self.input_row < WINDOW_HEIGHT
        &&& self.output_line <= WINDOW_HEIGHT
        &&& 1 <= self.start_col
        &&& self.start_col + WINDOW_WIDTH + 1 <= SCREEN_WIDTH
        &&& 2 <= self.start_row
        &&& self.start_row + WINDOW_HEIGHT + 1 <= SCREEN_HEIGHT
        &&& self.file_system.wf()
        &&& self.file_system.dir().len() >= 1
        &&& self.active_file < self.file_system.dir().len()
        &&& self.current_editing_file@.len() <= MAX_FILENAME_BYTES
    }

    /// The cursor never passes the letter count, which never passes the
    /// window width.
    pub open spec fn cursor_in_bounds(self) -> bool {
        0 <= self.cursor() <= self.letters_count() <= WINDOW_WIDTH
    }

    /// The bounds above follow from well-formedness.
    pub proof fn lemma_wf_cursor(self)
        requires
            self.wf(),
        ensures
            self.cursor_in_bounds(),
    {
    }
}

/// The text length of a row is the position of its first empty cell.
proof fn lemma_row_len_at(s: Seq<u8>, k: int)
    requires
        0 <= k <= s.len(),
        forall|m: int| 0 <= m < k ==> s[m] != 0,
        k == s.len() || s[k] == 0,
    ensures
        row_len(s) == k,
    decreases k,
{
    if k == 0 {
    } else {
        assert(s[0] != 0);
        lemma_row_len_at(s.drop_first(), k - 1);
    }
}

/// A row's text is never longer than the row.
proof fn lemma_row_len_bounds(s: Seq<u8>)
    ensures
        0 <= row_len(s) <= s.len(),
    decreases s.len(),
{
    if s.len() == 0 || s[0] == 0 {
    } else {
        lemma_row_len_bounds(s.drop_first());
    }
}

/// Serialized text never exceeds one newline more than each row's width.
proof fn lemma_serialize_len(grid: Seq<Seq<u8>>, r: int)
    requires
        forall|i: int| 0 <= i < grid.len() ==> (#[trigger] grid[i]).len() == WINDOW_WIDTH,
        0 <= r <= grid.len(),
    ensures
        serialize_upto(grid, r).len() <= r * (WINDOW_WIDTH + 1),
    decreases r,
{
    if r > 0 {
        lemma_serialize_len(grid, r - 1);
        lemma_row_len_bounds(grid[r - 1]);
        assert((r - 1) * (WINDOW_WIDTH + 1) + (WINDOW_WIDTH + 1) == r * (WINDOW_WIDTH + 1))
            by (nonlinear_arith);
    }
}

impl SwimDocument {
    /// An all-empty grid of the window's dimensions.
    fn empty_grid() -> (g: Vec<Vec<u8>>)
        ensures
            g@.len() == WINDOW_HEIGHT,
            forall|r: int| 0 <= r < g@.len() ==> (#[trigger] g@[r])@.len() == WINDOW_WIDTH,
            forall|r: int, c: int|
                0 <= r < WINDOW_HEIGHT && 0 <= c < WINDOW_WIDTH ==> #[trigger] g@[r]@[c] == 0,
    {
        let mut g: Vec<Vec<u8>> = Vec::new();
        let mut r: usize = 0;
        while r < WINDOW_HEIGHT
            invariant
                r <= WINDOW_HEIGHT,
                g@.len() == r,
                forall|i: int| 0 <= i < r ==> (#[trigger] g@[i])@.len() == WINDOW_WIDTH,
                forall|i: int, j: int|
                    0 <= i < r && 0 <= j < WINDOW_WIDTH ==> #[trigger] g@[i]@[j] == 0,
            decreases WINDOW_HEIGHT - r,
        {
            let mut row: Vec<u8> = Vec::new();
            let mut c: usize = 0;
            while c < WINDOW_WIDTH
                invariant
                    c <= WINDOW_WIDTH,
                    row@.len() == c,
                    forall|j: int| 0 <= j < c ==> #[trigger] row@[j] == 0,
                decreases WINDOW_WIDTH - c,
            {
                row.push(0);
                c += 1;
            }
            g.push(row);
            r += 1;
        }
        g
    }

    /// Empties the whole grid.
    fn clear_grid(&mut self)
        requires
            old(self).wf(),
        ensures
            final(self).wf(),
            forall|r: int, c: int|
                0 <= r < WINDOW_HEIGHT && 0 <= c < WINDOW_WIDTH
                    ==> #[trigger] final(self).grid()[r][c] == 0,
            unchanged_but_grid(*old(self), *final(self)),
    {
        let g = Self::empty_grid();
        self.letters = g;
    }

    /// A fresh window at a screen position, seeded with the fixture
    /// programs.
    pub fn new(start_col: usize, start_row: usize) -> (d: SwimDocument)
        requires
            1 <= start_col,
            start_col + WINDOW_WIDTH + 1 <= SCREEN_WIDTH,
            2 <= start_row,
            start_row + WINDOW_HEIGHT + 1 <= SCREEN_HEIGHT,
        ensures
            d.wf(),
            d.status() == WindowStatus::DisplayingFiles,
            !d.is_active(),
            !d.running(),
            d.cursor() == 0,
            d.letters_count() == 0,
            d.row() == 0,
            d.picked_file() == 0,
            d.out_line() == 0,
            d.pending() is None,
            d.editing_name().len() == 0,
            d.origin_col() == start_col,
            d.origin_row() == start_row,
            d.dir() == fixture_names(),
            d.files() == fixture_files(),
            d.dir().len() == 4,
            forall|r: int, c: int|
                0 <= r < WINDOW_HEIGHT && 0 <= c < WINDOW_WIDTH ==> #[trigger] d.grid()[r][c] == 0,
    {
        let mut d = SwimDocument {
            letters: Self::empty_grid(),
            num_letters: 0,
            start_col,
            start_row,
            current_row: 0,
            cursor_position: 0,
            active: false,
            file_system: FileDirectory::new(),
            window_status: WindowStatus::DisplayingFiles,
            active_file: 0,
            program_running: false,
            output_line: 0,
            pending_line: None,
            current_editing_file: Vec::new(),
            input_row: 0,
        };
        d.create_default_files();
        d
    }

    /// Seeds the four fixture programs into an empty directory.
    fn create_default_files(&mut self)
        requires
            old(self).file_system.wf(),
            old(self).dir().len() == 0,
            old(self).files() == Map::<Seq<u8>, Seq<u8>>::empty(),
            old(self).active_file == 0,
            old(self).letters@.len() == WINDOW_HEIGHT,
            forall|r: int|
                0 <= r < old(self).letters@.len() ==> (#[trigger] old(self).letters@[r])@.len()
                    == WINDOW_WIDTH,
            old(self).cursor_position <= old(self).num_letters <= WINDOW_WIDTH,
            old(self).current_row < WINDOW_HEIGHT,
            old(self).input_row < WINDOW_HEIGHT,
            old(self).output_line <= WINDOW_HEIGHT,
            1 <= old(self).start_col,
            old(self).start_col + WINDOW_WIDTH + 1 <= SCREEN_WIDTH,
            2 <= old(self).start_row,
            old(self).start_row + WINDOW_HEIGHT + 1 <= SCREEN_HEIGHT,
            old(self).current_editing_file@.len() <= MAX_FILENAME_BYTES,
        ensures
            final(self).wf(),
            final(self).dir() == fixture_names(),
            final(self).files() == fixture_files(),
            unchanged_but_files(*old(self), *final(self)),
    {
        let hello = program_name_hello();
        let nums = program_name_nums();
        let average = program_name_average();
        let pi = program_name_pi();
        let src_hello: Vec<u8> = fixture_bytes("print(\"Hello, world!\")");
        let src_nums: Vec<u8> = fixture_bytes("print(1)\nprint(257)");
        let src_average: Vec<u8> = fixture_bytes(
            "sum := 0\ncount := 0\naveraging := true\nwhile averaging {\n    num := input(\"Enter a number:\")\n    if (num == \"quit\") {\n        averaging := false\n    } else {\n        sum := (sum + num)\n        count := (count + 1)\n    }\n}\nprint((sum / count))",
        );
        let src_pi: Vec<u8> = fixture_bytes(
            "sum := 0\ni := 0\nneg := false\nterms := input(\"Num terms:\")\nwhile (i < terms) {\n    term := (1.0 / ((2.0 * i) + 1.0))\n    if neg {\n        term := -term\n    }\n    sum := (sum + term)\n    neg := not neg\n    i := (i + 1)\n}\nprint((4 * sum))",
        );
        let r1 = self.file_system.save_file(&hello, &src_hello);
        proof {
            assert(hello@.len() == 5 && nums@.len() == 4 && average@.len() == 7 && pi@.len() == 2);
            assert(r1 is Ok && !self.files().dom().contains(nums@));
        }
        let r2 = self.file_system.save_file(&nums, &src_nums);
        proof {
            assert(r2 is Ok && average@ != hello@ && average@ != nums@);
            assert(!self.files().dom().contains(average@));
        }
        let r3 = self.file_system.save_file(&average, &src_average);
        proof {
            assert(r3 is Ok && !self.files().dom().contains(pi@));
        }
        let r4 = self.file_system.save_file(&pi, &src_pi);
        proof {
            assert(r4 is Ok && self.dir().len() == 4);
            assert(self.dir() =~~= fixture_names());
            assert(self.files() =~= fixture_files());
        }
    }

    /// The text length of a grid row.
    pub fn get_line_length(&self, row: usize) -> (n: usize)
        requires
            self.wf(),
            row < WINDOW_HEIGHT,
        ensures
            n == row_len(self.grid()[row as int]),
            n <= WINDOW_WIDTH,
    {
        let mut k: usize = 0;
        while k < WINDOW_WIDTH && self.letters[row][k] != 0
            invariant
                self.wf(),
                row < WINDOW_HEIGHT,
                k <= WINDOW_WIDTH,
                forall|m: int| 0 <= m < k ==> self.grid()[row as int][m] != 0,
            decreases WINDOW_WIDTH - k,
        {
            k += 1;
        }
        proof {
            lemma_row_len_at(self.grid()[row as int], k as int);
        }
        k
    }

    /// The grid row holds no text.
    pub fn is_line_empty(&self, row: usize) -> (r: bool)
        requires
            self.wf(),
            row < WINDOW_HEIGHT,
        ensures
            r == row_empty(self.grid()[row as int]),
    {
        self.letters[row][0] == 0
    }

    /// The text of all non-empty rows, a newline between consecutive
    /// non-empty rows.
    pub fn serialize(&self) -> (out: Vec<u8>)
        requires
            self.wf(),
        ensures
            out@ == serialize_upto(self.grid(), WINDOW_HEIGHT as int),
            out@.len() <= WINDOW_HEIGHT * (WINDOW_WIDTH + 1),
            out@.len() <= MAX_FILE_BYTES,
    {
        let mut out: Vec<u8> = Vec::new();
        let mut r: usize = 0;
        while r < WINDOW_HEIGHT
            invariant
                self.wf(),
                r <= WINDOW_HEIGHT,
                out@ == serialize_upto(self.grid(), r as int),
            decreases WINDOW_HEIGHT - r,
        {
            let ghost acc = out@;
            if !self.is_line_empty(r) {
                if out.len() > 0 {
                    out.push(0x0a);
                }
                let n = self.get_line_length(r);
                let ghost base = out@;
                let mut k: usize = 0;
                while k < n
                    invariant
                        self.wf(),
                        r < WINDOW_HEIGHT,
                        k <= n,
                        n == row_len(self.grid()[r as int]),
                        n <= WINDOW_WIDTH,
                        out@ == base + self.grid()[r as int].take(k as int),
                    decreases n - k,
                {
                    out.push(self.letters[r][k]);
                    proof {
                        assert(out@ =~= base + self.grid()[r as int].take(k + 1 as int));
                    }
                    k += 1;
                }
                proof {
                    lemma_row_len_bounds(self.grid()[r as int]);
                    assert(out@ =~= base + row_text(self.grid()[r as int]));
                    if acc.len() > 0 {
                        assert(out@ =~= acc + seq![0x0au8] + row_text(self.grid()[r as int]));
                    } else {
                        assert(out@ =~= row_text(self.grid()[r as int]));
                    }
                    assert(out@ == serialize_upto(self.grid(), r + 1 as int));
                }
            }
            r += 1;
        }
        proof {
            lemma_serialize_len(self.grid(), WINDOW_HEIGHT as int);
        }
        out
    }
}

/// The two windows differ at most in their grid.
pub open spec fn unchanged_but_grid(a: SwimDocument, b: SwimDocument) -> bool {
    &&& b.cursor() == a.cursor()
    &&& b.letters_count() == a.letters_count()
    &&& b.row() == a.row()
    &&& b.status() == a.status()
    &&& b.is_active() == a.is_active()
    &&& b.files() == a.files()
    &&& b.dir() == a.dir()
    &&& b.picked_file() == a.picked_file()
    &&& b.running() == a.running()
    &&& b.out_line() == a.out_line()
    &&& b.pending() == a.pending()
    &&& b.editing_name() == a.editing_name()
    &&& b.origin_col() == a.origin_col()
    &&& b.origin_row() == a.origin_row()
}

/// The two windows differ at most in their stored files.
pub open spec fn unchanged_but_files(a: SwimDocument, b: SwimDocument) -> bool {
    &&& b.grid() == a.grid()
    &&& b.cursor() == a.cursor()
    &&& b.letters_count() == a.letters_count()
    &&& b.row() == a.row()
    &&& b.status() == a.status()
    &&& b.is_active() == a.is_active()
    &&& b.picked_file() == a.picked_file()
    &&& b.running() == a.running()
    &&& b.out_line() == a.out_line()
    &&& b.pending() == a.pending()
    &&& b.editing_name() == a.editing_name()
    &&& b.origin_col() == a.origin_col()
    &&& b.origin_row() == a.origin_row()
}

/// The name of the fixture that prints a greeting.
pub open spec fn hello_name() -> Seq<u8> {
    seq![0x68u8, 0x65u8, 0x6cu8, 0x6cu8, 0x6fu8]
}

/// The name of the fixture that prints two numbers.
pub open spec fn nums_name() -> Seq<u8> {
    seq![0x6eu8, 0x75u8, 0x6du8, 0x73u8]
}

/// The name of the fixture that averages entered numbers.
pub open spec fn average_name() -> Seq<u8> {
    seq![0x61u8, 0x76u8, 0x65u8, 0x72u8, 0x61u8, 0x67u8, 0x65u8]
}

/// The name of the fixture that sums a series.
pub open spec fn pi_name() -> Seq<u8> {
    seq![0x70u8, 0x69u8]
}

/// The bytes a fixture text is stored as: the text itself, which always
/// fits one file; an overlong text would be left out entirely.
pub open spec fn fixture_source(s: &str) -> Seq<u8> {
    if s.spec_bytes().len() <= MAX_FILE_BYTES {
        s.spec_bytes()
    } else {
        Seq::empty()
    }
}

/// The stored text of the `hello` fixture.
pub open spec fn hello_source() -> Seq<u8> {
    fixture_source("print(\"Hello, world!\")")
}

/// The stored text of the `nums` fixture.
pub open spec fn nums_source() -> Seq<u8> {
    fixture_source("print(1)\nprint(257)")
}

/// The stored text of the `average` fixture.
pub open spec fn average_source() -> Seq<u8> {
    fixture_source(
        "sum := 0\ncount := 0\naveraging := true\nwhile averaging {\n    num := input(\"Enter a number:\")\n    if (num == \"quit\") {\n        averaging := false\n    } else {\n        sum := (sum + num)\n        count := (count + 1)\n    }\n}\nprint((sum / count))",
    )
}

/// The stored text of the `pi` fixture.
pub open spec fn pi_source() -> Seq<u8> {
    fixture_source(
        "sum := 0\ni := 0\nneg := false\nterms := input(\"Num terms:\")\nwhile (i < terms) {\n    term := (1.0 / ((2.0 * i) + 1.0))\n    if neg {\n        term := -term\n    }\n    sum := (sum + term)\n    neg := not neg\n    i := (i + 1)\n}\nprint((4 * sum))",
    )
}

/// The four fixture names, in creation order.
pub open spec fn fixture_names() -> Seq<Seq<u8>> {
    seq![hello_name(), nums_name(), average_name(), pi_name()]
}

/// The four fixture files, each name mapped to its stored text.
pub open spec fn fixture_files() -> Map<Seq<u8>, Seq<u8>> {
    Map::<Seq<u8>, Seq<u8>>::empty().insert(hello_name(), hello_source()).insert(
        nums_name(),
        nums_source(),
    ).insert(average_name(), average_source()).insert(pi_name(), pi_source())
}

/// The bytes of a fixture program's source text; an overlong text would be
/// left out entirely rather than stored cut short.
fn fixture_bytes(s: &str) -> (v: Vec<u8>)
    ensures
        v@.len() <= MAX_FILE_BYTES,
        v@ == fixture_source(s),
{
    let b = s.as_bytes_vec();
    if b.len() <= MAX_FILE_BYTES {
        b
    } else {
        Vec::new()
    }
}

/// The fixture name `hello`.
fn program_name_hello() -> (v: Vec<u8>)
    ensures
        v@ =~= seq![0x68u8, 0x65u8, 0x6cu8, 0x6cu8, 0x6fu8],
{
    let mut v: Vec<u8> = Vec::new();
    v.push(0x68);
    v.push(0x65);
    v.push(0x6c);
    v.push(0x6c);
    v.push(0x6f);
    v
}

/// The fixture name `nums`.
fn program_name_nums() -> (v: Vec<u8>)
    ensures
        v@ =~= seq![0x6eu8, 0x75u8, 0x6du8, 0x73u8],
{
    let mut v: Vec<u8> = Vec::new();
    v.push(0x6e);
    v.push(0x75);
    v.push(0x6d);
    v.push(0x73);
    v
}

/// The fixture name `average`.
fn program_name_average() -> (v: Vec<u8>)
    ensures
        v@ =~= seq![0x61u8, 0x76u8, 0x65u8, 0x72u8, 0x61u8, 0x67u8, 0x65u8],
{
    let mut v: Vec<u8> = Vec::new();
    v.push(0x61);
    v.push(0x76);
    v.push(0x65);
    v.push(0x72);
    v.push(0x61);
    v.push(0x67);
    v.push(0x65);
    v
}

impl SwimDocument {
    /// Drawing by this window stays inside its own box, outline included.
    pub open spec fn box_frame(self, a: Screen, b: Screen) -> bool {
        crate::screen::same_outside(
            a,
            b,
            self.origin_row() - 1,
            self.origin_row() + WINDOW_HEIGHT,
            self.origin_col() - 1,
            self.origin_col() + WINDOW_WIDTH,
        )
    }

    /// The function-key label of the window at this position.
    pub open spec fn window_label(self) -> Seq<u8> {
        if self.origin_col() == 1 && self.origin_row() == 2 {
            seq![0x46u8, 0x31u8]
        } else if self.origin_col() == 36 && self.origin_row() == 2 {
            seq![0x46u8, 0x32u8]
        } else if self.origin_col() == 1 && self.origin_row() == 14 {
            seq![0x46u8, 0x33u8]
        } else if self.origin_col() == 36 && self.origin_row() == 14 {
            seq![0x46u8, 0x34u8]
        } else {
            Seq::empty()
        }
    }

    /// Blanks the window's columns of one absolute screen row.
    pub fn clear_line(&self, screen: &mut Screen, row: usize)
        requires
            self.wf(),
            old(screen).wf(),
            self.origin_row() - 1 <= row <= self.origin_row() + WINDOW_HEIGHT,
        ensures
            final(screen).wf(),
            forall|c: int|
                self.origin_col() <= c < self.origin_col() + WINDOW_WIDTH ==> #[trigger] final(screen).cell(row as int, c) == crate::screen::blank_cell(),
            forall|r: int, c: int|
                0 <= r < SCREEN_HEIGHT && 0 <= c < SCREEN_WIDTH && !(r == row && self.origin_col()
                    <= c < self.origin_col() + WINDOW_WIDTH) ==> #[trigger] final(screen).cell(r, c)
                    == old(screen).cell(r, c),
    {
        screen.fill_row(
            self.start_col,
            self.start_col + WINDOW_WIDTH,
            row,
            0x20,
            Color::Black,
            Color::Black,
        );
    }

    /// Blanks the window's whole text area.
    pub fn clear_window(&self, screen: &mut Screen)
        requires
            self.wf(),
            old(screen).wf(),
        ensures
            final(screen).wf(),
            forall|r: int, c: int|
                self.origin_row() <= r < self.origin_row() + WINDOW_HEIGHT && self.origin_col() <= c
                    < self.origin_col() + WINDOW_WIDTH ==> #[trigger] final(screen).cell(r, c)
                    == crate::screen::blank_cell(),
            forall|r: int, c: int|
                0 <= r < SCREEN_HEIGHT && 0 <= c < SCREEN_WIDTH && !(self.origin_row() <= r
                    < self.origin_row() + WINDOW_HEIGHT && self.origin_col() <= c
                    < self.origin_col() + WINDOW_WIDTH) ==> #[trigger] final(screen).cell(r, c)
                    == old(screen).cell(r, c),
    {
        let mut r: usize = 0;
        while r < WINDOW_HEIGHT
            invariant
                self.wf(),
                screen.wf(),
                r <= WINDOW_HEIGHT,
                forall|rr: int, c: int|
                    self.origin_row() <= rr < self.origin_row() + r && self.origin_col() <= c
                        < self.origin_col() + WINDOW_WIDTH ==> #[trigger] screen.cell(rr, c)
                        == crate::screen::blank_cell(),
                forall|rr: int, c: int|
                    0 <= rr < SCREEN_HEIGHT && 0 <= c < SCREEN_WIDTH && !(self.origin_row() <= rr
                        < self.origin_row() + r && self.origin_col() <= c < self.origin_col()
                        + WINDOW_WIDTH) ==> #[trigger] screen.cell(rr, c) == old(screen).cell(
                        rr,
                        c,
                    ),
            decreases WINDOW_HEIGHT - r,
        {
            self.clear_line(screen, self.start_row + r);
            r += 1;
        }
    }

    /// The grid row echoed on the screen: the composed input line while
    /// awaiting input, else the line under the cursor.
    pub closed spec fn echo_row(self) -> int {
        if self.status() == WindowStatus::AwaitingInput {
            self.input_row as int
        } else {
            self.row()
        }
    }

    /// Draws the echoed row's letters and the cursor mark, `offset` rows
    /// under the cursor row.
    pub fn draw_current(&self, screen: &mut Screen, offset: usize)
        requires
            self.wf(),
            old(screen).wf(),
            offset <= 1,
        ensures
            final(screen).wf(),
            forall|i: int|
                0 <= i < self.letters_count() && i != self.cursor() ==> #[trigger] final(screen).cell(self.origin_row() + self.row() + offset, self.origin_col() + i)
                    == (crate::screen::ScreenCell {
                    ch: self.grid()[self.echo_row()][i],
                    fg: Color::White,
                    bg: Color::Black,
                }),
            final(screen).cell(
                self.origin_row() + self.row() + offset,
                self.origin_col() + self.cursor(),
            ) == (crate::screen::ScreenCell { ch: 0x20, fg: Color::White, bg: Color::White }),
            forall|r: int, c: int|
                0 <= r < SCREEN_HEIGHT && 0 <= c < SCREEN_WIDTH && !(r == self.origin_row()
                    + self.row() + offset && self.origin_col() <= c <= self.origin_col()
                    + WINDOW_WIDTH) ==> #[trigger] final(screen).cell(r, c) == old(screen).cell(
                    r,
                    c,
                ),
    {
        let row_abs = self.start_row + (self.current_row % WINDOW_HEIGHT) + offset;
        let buffer_row = if matches!(self.window_status, WindowStatus::AwaitingInput) {
            self.input_row
        } else {
            self.current_row
        };
        let mut i: usize = 0;
        while i < self.num_letters
            invariant
                self.wf(),
                screen.wf(),
                i <= self.num_letters,
                row_abs == self.origin_row() + self.row() + offset,
                row_abs < SCREEN_HEIGHT,
                buffer_row == self.echo_row(),
                buffer_row < WINDOW_HEIGHT,
                offset <= 1,
                forall|j: int|
                    0 <= j < i ==> #[trigger] screen.cell(row_abs as int, self.origin_col() + j)
                        == (crate::screen::ScreenCell {
                        ch: self.grid()[self.echo_row()][j],
                        fg: Color::White,
                        bg: Color::Black,
                    }),
                forall|r: int, c: int|
                    0 <= r < SCREEN_HEIGHT && 0 <= c < SCREEN_WIDTH && !(r == row_abs
                        && self.origin_col() <= c <= self.origin_col() + WINDOW_WIDTH)
                        ==> #[trigger] screen.cell(r, c) == old(screen).cell(r, c),
            decreases self.num_letters - i,
        {
            screen.plot(
                self.letters[buffer_row][i],
                self.start_col + i,
                row_abs,
                Color::White,
                Color::Black,
            );
            i += 1;
        }
        screen.plot(
            0x20,
            self.start_col + self.cursor_position,
            row_abs,
            Color::White,
            Color::White,
        );
    }

    /// Draws every row's text and the cursor mark.
    pub fn draw_all_lines(&self, screen: &mut Screen)
        requires
            self.wf(),
            old(screen).wf(),
        ensures
            final(screen).wf(),
            forall|r: int, c: int|
                0 <= r < WINDOW_HEIGHT && 0 <= c < row_len(self.grid()[r]) && !(r == self.row() && c
                    == self.cursor()) ==> #[trigger] final(screen).cell(
                    self.origin_row() + r,
                    self.origin_col() + c,
                ) == (crate::screen::ScreenCell {
                    ch: self.grid()[r][c],
                    fg: Color::White,
                    bg: Color::Black,
                }),
            final(screen).cell(self.origin_row() + self.row(), self.origin_col() + self.cursor())
                == (crate::screen::ScreenCell { ch: 0x20, fg: Color::White, bg: Color::White }),
            forall|r: int, c: int|
                0 <= r < SCREEN_HEIGHT && 0 <= c < SCREEN_WIDTH && !(self.origin_row() <= r
                    <= self.origin_row() + WINDOW_HEIGHT && self.origin_col() <= c
                    <= self.origin_col() + WINDOW_WIDTH) ==> #[trigger] final(screen).cell(r, c)
                    == old(screen).cell(r, c),
    {
        proof {
            assert forall|rr: int| 0 <= rr < WINDOW_HEIGHT implies 0 <= #[trigger] row_len(
                self.grid()[rr],
            ) <= WINDOW_WIDTH by {
                lemma_row_len_bounds(self.grid()[rr]);
            }
        }
        let mut r: usize = 0;
        while r < WINDOW_HEIGHT
            invariant
                self.wf(),
                screen.wf(),
                r <= WINDOW_HEIGHT,
                forall|rr: int|
                    0 <= rr < WINDOW_HEIGHT ==> 0 <= #[trigger] row_len(self.grid()[rr])
                        <= WINDOW_WIDTH,
                forall|rr: int, c: int|
                    0 <= rr < r && 0 <= c < row_len(self.grid()[rr]) ==> #[trigger] screen.cell(
                        self.origin_row() + rr,
                        self.origin_col() + c,
                    ) == (crate::screen::ScreenCell {
                        ch: self.grid()[rr][c],
                        fg: Color::White,
                        bg: Color::Black,
                    }),
                forall|rr: int, c: int|
                    0 <= rr < SCREEN_HEIGHT && 0 <= c < SCREEN_WIDTH && !(self.origin_row() <= rr
                        <= self.origin_row() + WINDOW_HEIGHT && self.origin_col() <= c
                        <= self.origin_col() + WINDOW_WIDTH) ==> #[trigger] screen.cell(rr, c)
                        == old(screen).cell(rr, c),
            decreases WINDOW_HEIGHT - r,
        {
            if !self.is_line_empty(r) {
                let n = self.get_line_length(r);
                let mut c: usize = 0;
                while c < n
                    invariant
                        self.wf(),
                        screen.wf(),
                        r < WINDOW_HEIGHT,
                        c <= n,
                        n == row_len(self.grid()[r as int]),
                        n <= WINDOW_WIDTH,
                        forall|rr: int|
                            0 <= rr < WINDOW_HEIGHT ==> 0 <= #[trigger] row_len(self.grid()[rr])
                                <= WINDOW_WIDTH,
                        forall|rr: int, cc: int|
                            0 <= rr < r && 0 <= cc < row_len(self.grid()[rr])
                                ==> #[trigger] screen.cell(
                                self.origin_row() + rr,
                                self.origin_col() + cc,
                            ) == (crate::screen::ScreenCell {
                                ch: self.grid()[rr][cc],
                                fg: Color::White,
                                bg: Color::Black,
                            }),
                        forall|cc: int|
                            0 <= cc < c ==> #[trigger] screen.cell(
                                self.origin_row() + r,
                                self.origin_col() + cc,
                            ) == (crate::screen::ScreenCell {
                                ch: self.grid()[r as int][cc],
                                fg: Color::White,
                                bg: Color::Black,
                            }),
                        forall|rr: int, cc: int|
                            0 <= rr < SCREEN_HEIGHT && 0 <= cc < SCREEN_WIDTH && !(self.origin_row()
                                <= rr <= self.origin_row() + WINDOW_HEIGHT && self.origin_col()
                                <= cc <= self.origin_col() + WINDOW_WIDTH)
                                ==> #[trigger] screen.cell(rr, cc) == old(screen).cell(rr, cc),
                    decreases n - c,
                {
                    screen.plot(
                        self.letters[r][c],
                        self.start_col + c,
                        self.start_row + r,
                        Color::White,
                        Color::Black,
                    );
                    c += 1;
                }
            }
            r += 1;
        }
        screen.plot(
            0x20,
            self.start_col + self.cursor_position,
            self.start_row + self.current_row,
            Color::White,
            Color::White,
        );
    }

    /// Draws the window's star outline, its function-key label, and, while
    /// editing, the open filename beside the label.
    pub fn draw_outline(&self, screen: &mut Screen)
        requires
            self.wf(),
            old(screen).wf(),
        ensures
            final(screen).wf(),
            forall|r: int|
                self.origin_row() - 1 <= r <= self.origin_row() + WINDOW_HEIGHT ==> #[trigger]
                final(screen).cell(r, self.origin_col() - 1) == (crate::screen::ScreenCell {
                    ch: 0x2a,
                    fg: self.outline_fg(),
                    bg: self.outline_bg(),
                }),
            forall|r: int|
                self.origin_row() - 1 <= r <= self.origin_row() + WINDOW_HEIGHT ==> #[trigger]
                final(screen).cell(r, self.origin_col() + WINDOW_WIDTH)
                    == (crate::screen::ScreenCell {
                    ch: 0x2a,
                    fg: self.outline_fg(),
                    bg: self.outline_bg(),
                }),
            forall|c: int|
                self.origin_col() - 1 <= c <= self.origin_col() + WINDOW_WIDTH ==> #[trigger]
                final(screen).cell(self.origin_row() + WINDOW_HEIGHT, c)
                    == (crate::screen::ScreenCell {
                    ch: 0x2a,
                    fg: self.outline_fg(),
                    bg: self.outline_bg(),
                }),
            forall|k: int|
                0 <= k < self.window_label().len() ==> #[trigger] final(screen).cell(
                    self.origin_row() - 1,
                    self.origin_col() + k,
                ) == (crate::screen::ScreenCell {
                    ch: self.window_label()[k],
                    fg: Color::White,
                    bg: Color::Black,
                }),
            self.box_frame(*old(screen), *final(screen)),
    {
        let fg = if self.active {
            Color::Black
        } else {
            Color::White
        };
        let bg = if self.active {
            Color::White
        } else {
            Color::Black
        };
        proof {
            assert(fg == self.outline_fg() && bg == self.outline_bg());
        }
        // top and bottom rows
        let mut c: usize = self.start_col - 1;
        while c <= self.start_col + WINDOW_WIDTH
            invariant
                self.wf(),
                screen.wf(),
                self.origin_col() - 1 <= c <= self.origin_col() + WINDOW_WIDTH + 1,
                fg == self.outline_fg(),
                bg == self.outline_bg(),
                forall|cc: int|
                    self.origin_col() - 1 <= cc < c ==> #[trigger] screen.cell(
                        self.origin_row() - 1,
                        cc,
                    ) == (crate::screen::ScreenCell { ch: 0x2a, fg: self.outline_fg(), bg: self.outline_bg() }),
                forall|cc: int|
                    self.origin_col() - 1 <= cc < c ==> #[trigger] screen.cell(
                        self.origin_row() + WINDOW_HEIGHT,
                        cc,
                    ) == (crate::screen::ScreenCell { ch: 0x2a, fg: self.outline_fg(), bg: self.outline_bg() }),
                self.box_frame(*old(screen), *screen),
            decreases self.origin_col() + WINDOW_WIDTH + 1 - c,
        {
            screen.plot(0x2a, c, self.start_row - 1, fg, bg);
            screen.plot(0x2a, c, self.start_row + WINDOW_HEIGHT, fg, bg);
            c += 1;
        }
        // side columns
        let mut r: usize = self.start_row - 1;
        while r <= self.start_row + WINDOW_HEIGHT
            invariant
                self.wf(),
                screen.wf(),
                self.origin_row() - 1 <= r <= self.origin_row() + WINDOW_HEIGHT + 1,
                fg == self.outline_fg(),
                bg == self.outline_bg(),
                forall|rr: int|
                    self.origin_row() - 1 <= rr < r ==> #[trigger] screen.cell(
                        rr,
                        self.origin_col() - 1,
                    ) == (crate::screen::ScreenCell { ch: 0x2a, fg: self.outline_fg(), bg: self.outline_bg() }),
                forall|rr: int|
                    self.origin_row() - 1 <= rr < r ==> #[trigger] screen.cell(
                        rr,
                        self.origin_col() + WINDOW_WIDTH,
                    ) == (crate::screen::ScreenCell { ch: 0x2a, fg: self.outline_fg(), bg: self.outline_bg() }),
                forall|cc: int|
                    self.origin_col() - 1 <= cc <= self.origin_col() + WINDOW_WIDTH ==> #[trigger]
                    screen.cell(self.origin_row() + WINDOW_HEIGHT, cc)
                        == (crate::screen::ScreenCell { ch: 0x2a, fg: self.outline_fg(), bg: self.outline_bg() }),
                self.box_frame(*old(screen), *screen),
            decreases self.origin_row() + WINDOW_HEIGHT + 1 - r,
        {
            screen.plot(0x2a, self.start_col - 1, r, fg, bg);
            screen.plot(0x2a, self.start_col + WINDOW_WIDTH, r, fg, bg);
            r += 1;
        }
        let label = self.label_bytes();
        screen.plot_bytes(&label, self.start_col, self.start_row - 1, Color::White, Color::Black);
        if matches!(self.window_status, WindowStatus::EditingFile) && self.current_editing_file.len()
            > 0 && self.current_editing_file.len() <= WINDOW_WIDTH - 3 {
            screen.plot_bytes(
                &self.current_editing_file,
                self.start_col + label.len() + 1,
                self.start_row - 1,
                Color::White,
                Color::Black,
            );
        }
    }

    /// The outline's foreground: inverted while the window is active.
    pub open spec fn outline_fg(self) -> Color {
        if self.is_active() {
            Color::Black
        } else {
            Color::White
        }
    }

    /// The outline's background: inverted while the window is active.
    pub open spec fn outline_bg(self) -> Color {
        if self.is_active() {
            Color::White
        } else {
            Color::Black
        }
    }

    /// The window's label as bytes.
    fn label_bytes(&self) -> (v: Vec<u8>)
        ensures
            v@ == self.window_label(),
            v@.len() <= 2,
    {
        let mut v: Vec<u8> = Vec::new();
        if self.start_col == 1 && self.start_row == 2 {
            v.push(0x46);
            v.push(0x31);
        } else if self.start_col == 36 && self.start_row == 2 {
            v.push(0x46);
            v.push(0x32);
        } else if self.start_col == 1 && self.start_row == 14 {
            v.push(0x46);
            v.push(0x33);
        } else if self.start_col == 36 && self.start_row == 14 {
            v.push(0x46);
            v.push(0x34);
        }
        proof {
            assert(v@ =~= self.window_label());
        }
        v
    }

    /// Draws the directory listing, three names to a row, the picked entry
    /// inverted.
    pub fn display_files(&self, screen: &mut Screen)
        requires
            self.wf(),
            old(screen).wf(),
        ensures
            final(screen).wf(),
            forall|f: int, k: int|
                0 <= f < self.dir().len() && 0 <= k < self.dir()[f].len() ==> #[trigger] final(screen).cell(self.origin_row() + f / 3, self.origin_col() + 10 * (f % 3) + k)
                    == (crate::screen::ScreenCell {
                    ch: self.dir()[f][k],
                    fg: if f == self.picked_file() { Color::Black } else { Color::White },
                    bg: if f == self.picked_file() { Color::White } else { Color::Black },
                }),
            forall|rr: int, cc: int|
                0 <= rr < SCREEN_HEIGHT && 0 <= cc < SCREEN_WIDTH && !(self.origin_row() <= rr
                    <= self.origin_row() + 10 && self.origin_col() <= cc < self.origin_col() + 30)
                    ==> #[trigger] final(screen).cell(rr, cc) == old(screen).cell(rr, cc),
    {
        proof {
            self.file_system.lemma_dir_bounds();
        }
        let count = self.file_system.num_files();
        let mut f: usize = 0;
        while f < count
            invariant
                self.wf(),
                screen.wf(),
                count == self.dir().len(),
                count <= crate::MAX_FILES_STORED,
                forall|i: int|
                    0 <= i < self.dir().len() ==> 1 <= (#[trigger] self.dir()[i]).len()
                        <= MAX_FILENAME_BYTES,
                f <= count,
                forall|ff: int, k: int|
                    0 <= ff < f && 0 <= k < self.dir()[ff].len() ==> #[trigger] screen.cell(
                        self.origin_row() + ff / 3,
                        self.origin_col() + 10 * (ff % 3) + k,
                    ) == (crate::screen::ScreenCell {
                        ch: self.dir()[ff][k],
                        fg: if ff == self.picked_file() { Color::Black } else { Color::White },
                        bg: if ff == self.picked_file() { Color::White } else { Color::Black },
                    }),
                forall|rr: int, cc: int|
                    0 <= rr < SCREEN_HEIGHT && 0 <= cc < SCREEN_WIDTH && !(self.origin_row() <= rr
                        <= self.origin_row() + 10 && self.origin_col() <= cc < self.origin_col()
                        + 30) ==> #[trigger] screen.cell(rr, cc) == old(screen).cell(rr, cc),
            decreases count - f,
        {
            let name = self.file_system.file_name_at(f);
            let col = self.start_col + 10 * (f % 3);
            let row = self.start_row + f / 3;
            proof {
                assert(f / 3 <= 10 && f % 3 < 3) by (nonlinear_arith)
                    requires f < 31;
            }
            if f == self.active_file {
                screen.plot_bytes(&name, col, row, Color::Black, Color::White);
            } else {
                screen.plot_bytes(&name, col, row, Color::White, Color::Black);
            }
            f += 1;
        }
    }
}

/// The fixture name `pi`.
fn program_name_pi() -> (v: Vec<u8>)
    ensures
        v@ =~= seq![0x70u8, 0x69u8],
{
    let mut v: Vec<u8> = Vec::new();
    v.push(0x70);
    v.push(0x69);
    v
}


/// A grid row after a backspace at `cur`: the letters from `cur` on move
/// one cell left, the vacated cell at `num - 1` is emptied.
pub open spec fn backspaced(row: Seq<u8>, cur: int, num: int) -> Seq<u8> {
    Seq::new(
        row.len(),
        |m: int|
            if cur - 1 <= m < num - 1 {
                row[m + 1]
            } else if m == num - 1 {
                0
            } else {
                row[m]
            },
    )
}

/// Windows agree on who they are: their place on the screen, their
/// storage, their picked entry and their saved-name record.
pub open spec fn window_identity_core(a: SwimDocument, b: SwimDocument) -> bool {
    &&& b.files() == a.files()
    &&& b.dir() == a.dir()
    &&& b.picked_file() == a.picked_file()
    &&& b.editing_name() == a.editing_name()
    &&& b.origin_col() == a.origin_col()
    &&& b.origin_row() == a.origin_row()
}

/// Windows agree on everything a keystroke in the text area never touches:
/// which window this is, its highlight, its storage, its picked entry and
/// its saved-name record.
pub open spec fn same_window_identity(a: SwimDocument, b: SwimDocument) -> bool {
    &&& b.is_active() == a.is_active()
    &&& window_identity_core(a, b)
}

/// Windows that differ in nothing but the highlight flag.
pub open spec fn same_but_active(a: SwimDocument, b: SwimDocument) -> bool {
    &&& window_identity_core(a, b)
    &&& b.grid() == a.grid()
    &&& b.cursor() == a.cursor()
    &&& b.letters_count() == a.letters_count()
    &&& b.row() == a.row()
    &&& b.status() == a.status()
    &&& b.running() == a.running()
    &&& b.out_line() == a.out_line()
    &&& b.pending() == a.pending()
}

/// What one scheduled tick does to a window and its program handle. A
/// running program keeps running, prints, finishes into the output view and
/// drops its handle, or turns to await input on a fresh input line; a
/// window awaiting input refreshes its echo; any other window is untouched.
pub open spec fn tick_spec(
    a: SwimDocument,
    b: SwimDocument,
    ia: Option<Interpreter>,
    ib: Option<Interpreter>,
) -> bool {
    &&& window_identity_core(a, b)
    &&& a.status() == WindowStatus::ExecutingFile ==> {
        &&& b.pending() is None
        &&& b.grid() == a.grid()
        &&& (a.pending() matches Some(line) ==> {
            // the composed line is delivered in place of the advance;
            // the program itself steps on a later granted tick
            &&& b.status() == WindowStatus::ExecutingFile
            &&& b.running() == a.running()
            &&& b.cursor() == a.cursor()
            &&& b.letters_count() == a.letters_count()
            &&& b.row() == a.row()
            &&& b.out_line() == a.out_line()
            &&& (ia matches Some(p) && ib matches Some(q) && q.wf() && crate::interp::delivered(
                p,
                line,
                q,
            ))
        })
        &&& (a.pending() is None ==> {
            &&& (b.status() == WindowStatus::ExecutingFile ==> (ib matches Some(ip) && ip.wf())
                && b.running() == a.running() && b.cursor() == a.cursor() && b.letters_count()
                == a.letters_count() && b.row() == a.row())
            &&& (b.status() == WindowStatus::DisplayingOutput ==> ib is None && !b.running())
            &&& (b.status() == WindowStatus::AwaitingInput ==> (ib matches Some(ip) && ip.wf())
                && b.cursor() == 0 && b.letters_count() == 0 && b.row() == 0 && b.running()
                == a.running() && b.out_line() == 0)
            &&& (b.status() == WindowStatus::ExecutingFile || b.status()
                == WindowStatus::DisplayingOutput || b.status() == WindowStatus::AwaitingInput)
            // the program really advanced: the outcome and the handle's next
            // state are exactly one specification-level step of the old one
            &&& (ia matches Some(p0) && exists|r: TickResult, p1: Interpreter|
                {
                    &&& #[trigger] crate::interp::step_spec(p0, r, p1)
                    &&& match r {
                        TickResult::Continuing => b.status() == WindowStatus::ExecutingFile && ib
                            == Some(p1) && b.out_line() == a.out_line(),
                        TickResult::Printed(line) => b.status() == WindowStatus::ExecutingFile && ib
                            == Some(p1) && b.out_line() == (if a.out_line() >= WINDOW_HEIGHT {
                            WINDOW_HEIGHT as int
                        } else {
                            a.out_line() + 1
                        }),
                        TickResult::Finished => b.status() == WindowStatus::DisplayingOutput && ib
                            is None,
                        TickResult::AwaitInput => b.status() == WindowStatus::AwaitingInput && ib
                            == Some(p1),
                    }
                })
        })
    }
    &&& a.status() == WindowStatus::AwaitingInput ==> {
        &&& ib == ia
        &&& b.status() == a.status()
        &&& b.running() == a.running()
        &&& b.pending() == a.pending()
        &&& b.grid() == a.grid()
        &&& b.cursor() == a.cursor()
        &&& b.letters_count() == a.letters_count()
        &&& b.row() == a.row()
        &&& b.out_line() == 0
    }
    &&& (a.status() != WindowStatus::ExecutingFile && a.status() != WindowStatus::AwaitingInput)
        ==> (b == a && ib == ia)
}

/// Splitting at the first newline: if no newline stands before `j`, the
/// first line is the text up to `j`, and the rest splits on its own.
proof fn lemma_split_at(b: Seq<u8>, j: int)
    requires
        0 <= j <= b.len(),
        forall|m: int| 0 <= m < j ==> b[m] != 0x0a,
        j < b.len() ==> b[j] == 0x0a,
    ensures
        j == b.len() ==> split_lines(b) == seq![b],
        j < b.len() ==> split_lines(b) == seq![b.take(j)] + split_lines(b.skip(j + 1)),
    decreases j,
{
    if j == 0 {
        if b.len() == 0 {
            assert(split_lines(b) =~~= seq![b]);
        } else {
            assert(b[0] == 0x0a);
            assert(b.take(0) =~= Seq::<u8>::empty());
            assert(b.skip(1) =~= b.drop_first());
            assert(split_lines(b) =~~= seq![b.take(0)] + split_lines(b.skip(1)));
        }
    } else {
        assert(b[0] != 0x0a);
        let d = b.drop_first();
        lemma_split_at(d, j - 1);
        let rest = split_lines(d);
        if j == b.len() {
            assert(rest == seq![d]);
            assert(seq![b[0]] + rest[0] =~= b);
            assert(rest.drop_first() =~= Seq::<Seq<u8>>::empty());
            assert(split_lines(b) =~~= seq![b]);
        } else {
            assert(rest == seq![d.take(j - 1)] + split_lines(d.skip(j)));
            assert(rest[0] == d.take(j - 1));
            assert(seq![b[0]] + d.take(j - 1) =~= b.take(j));
            assert(d.skip(j) =~= b.skip(j + 1));
            assert(rest.drop_first() =~~= split_lines(d.skip(j)));
            assert(split_lines(b) =~~= seq![b.take(j)] + split_lines(b.skip(j + 1)));
        }
    }
}

/// What one character key does to a window's text state: a newline while
/// awaiting input queues the composed line and resumes the program; a
/// newline while editing opens a fresh row; backspace pulls the rest of the
/// row one cell left and is a no-op at the left edge; a printable key lands
/// at the cursor, where a full editor row first wraps to a fresh row and a
/// full input row drops the key; any other key changes nothing.
pub open spec fn unicode_key_spec(a: SwimDocument, b: SwimDocument, key: char) -> bool {
    &&& (key == '\n' && a.status() == WindowStatus::AwaitingInput) ==> {
        &&& b.status() == WindowStatus::ExecutingFile
        &&& b.running()
        &&& b.pending() == Some(a.grid()[a.echo_row()].take(a.letters_count()))
        &&& b.grid() == a.grid()
        &&& b.cursor() == 0
        &&& b.letters_count() == 0
        &&& b.row() == a.row()
        &&& b.out_line() == a.out_line()
    }
    &&& (key == '\n' && a.status() == WindowStatus::EditingFile) ==> {
        &&& b.status() == a.status()
        &&& b.running() == a.running()
        &&& b.pending() == a.pending()
        &&& b.grid() == a.grid()
        &&& b.cursor() == 0
        &&& b.letters_count() == 0
        &&& b.row() == (a.row() + 1) % (WINDOW_HEIGHT as int)
        &&& b.out_line() == a.out_line()
    }
    &&& (key == '\u{8}') ==> {
        &&& b.status() == a.status()
        &&& b.running() == a.running()
        &&& b.pending() == a.pending()
        &&& b.row() == a.row()
        &&& b.out_line() == a.out_line()
        &&& a.cursor() == 0 ==> b == a
        &&& a.cursor() > 0 ==> {
            &&& b.grid() == a.grid().update(
                a.echo_row(),
                backspaced(a.grid()[a.echo_row()], a.cursor(), a.letters_count()),
            )
            &&& b.cursor() == a.cursor() - 1
            &&& b.letters_count() == a.letters_count() - 1
        }
    }
    &&& printable_key(key) ==> {
        &&& b.status() == a.status()
        &&& b.running() == a.running()
        &&& b.pending() == a.pending()
        &&& b.out_line() == a.out_line()
        &&& (a.status() == WindowStatus::EditingFile && a.cursor() < WINDOW_WIDTH) ==> {
            &&& b.grid() == a.grid().update(
                a.row(),
                a.grid()[a.row()].update(a.cursor(), key as u8),
            )
            &&& b.cursor() == a.cursor() + 1
            &&& b.letters_count() == (if a.letters_count() >= a.cursor() + 1 {
                a.letters_count()
            } else {
                a.cursor() + 1
            })
            &&& b.row() == a.row()
        }
        &&& (a.status() == WindowStatus::EditingFile && a.cursor() == WINDOW_WIDTH) ==> {
            &&& b.row() == (a.row() + 1) % (WINDOW_HEIGHT as int)
            &&& b.grid() == a.grid().update(b.row(), a.grid()[b.row()].update(0, key as u8))
            &&& b.cursor() == 1
            &&& b.letters_count() == 1
        }
        &&& (a.status() == WindowStatus::AwaitingInput && a.cursor() < WINDOW_WIDTH) ==> {
            &&& b.grid() == a.grid().update(
                a.echo_row(),
                a.grid()[a.echo_row()].update(a.cursor(), key as u8),
            )
            &&& b.cursor() == a.cursor() + 1
            &&& b.letters_count() == (if a.letters_count() >= a.cursor() + 1 {
                a.letters_count()
            } else {
                a.cursor() + 1
            })
            &&& b.row() == a.row()
        }
        &&& (a.status() == WindowStatus::AwaitingInput && a.cursor() == WINDOW_WIDTH) ==> b == a
    }
    &&& (key != '\n' && key != '\u{8}' && !printable_key(key)) ==> b == a
}

impl SwimDocument {
    /// The absolute screen row of the cursor's row.
    fn get_actual_row(&self) -> (r: usize)
        requires
            self.wf(),
        ensures
            r == self.origin_row() + self.row(),
    {
        self.start_row + (self.current_row % WINDOW_HEIGHT)
    }

    /// Opens a fresh row under the cursor: the cursor mark is wiped, the
    /// row advances with wraparound, and the letter bookkeeping restarts.
    /// The letters of the row that is wrapped into are not wiped here: a
    /// revisited row shows its old letters until they are overwritten.
    fn start_new_line(&mut self, screen: &mut Screen, offset: usize)
        requires
            old(self).wf(),
            old(screen).wf(),
            offset <= 1,
        ensures
            final(self).wf(),
            final(screen).wf(),
            final(self).row() == (old(self).row() + 1) % ((WINDOW_HEIGHT - offset) as int),
            final(self).cursor() == 0,
            final(self).letters_count() == 0,
            final(self).grid() == old(self).grid(),
            final(self).status() == old(self).status(),
            final(self).running() == old(self).running(),
            final(self).pending() == old(self).pending(),
            final(self).out_line() == old(self).out_line(),
            final(self).echo_row() == if old(self).status() == WindowStatus::AwaitingInput {
                old(self).echo_row()
            } else {
                (old(self).row() + 1) % ((WINDOW_HEIGHT - offset) as int)
            },
            same_window_identity(*old(self), *final(self)),
            old(self).box_frame(*old(screen), *final(screen)),
    {
        let row = self.get_actual_row() + offset;
        screen.plot(0x20, self.start_col + self.cursor_position, row, Color::Black, Color::Black);
        self.current_row = (self.current_row + 1) % (WINDOW_HEIGHT - offset);
        self.cursor_position = 0;
        self.num_letters = 0;
    }

    /// One character key, handled in the editor or on the input line.
    ///
    /// A newline while awaiting input queues the composed line and resumes
    /// the program; while editing it opens a fresh row. Backspace pulls the
    /// rest of the row one cell left and is a no-op at the left edge. A
    /// printable key lands at the cursor; on a full editor row it first
    /// opens a fresh row and becomes that row's first letter, and on a full
    /// input row it is dropped. Anything else changes nothing.
    pub fn handle_unicode(&mut self, screen: &mut Screen, key: char)
        requires
            old(self).wf(),
            old(screen).wf(),
            old(self).status() == WindowStatus::EditingFile || old(self).status()
                == WindowStatus::AwaitingInput,
        ensures
            final(self).wf(),
            final(screen).wf(),
            same_window_identity(*old(self), *final(self)),
            old(self).box_frame(*old(screen), *final(screen)),
            unicode_key_spec(*old(self), *final(self), key),
    {
        let code = key as u32;
        if code == 0x0a {
            if matches!(self.window_status, WindowStatus::AwaitingInput) {
                let mut line: Vec<u8> = Vec::new();
                let mut i: usize = 0;
                while i < self.num_letters
                    invariant
                        self.wf(),
                        i <= self.num_letters,
                        self.input_row < WINDOW_HEIGHT,
                        line@ == self.grid()[self.input_row as int].take(i as int),
                    decreases self.num_letters - i,
                {
                    line.push(self.letters[self.input_row][i]);
                    proof {
                        assert(line@ =~= self.grid()[self.input_row as int].take(i + 1 as int));
                    }
                    i += 1;
                }
                self.pending_line = Some(line);
                self.cursor_position = 0;
                self.num_letters = 0;
                self.window_status = WindowStatus::ExecutingFile;
                self.program_running = true;
            } else {
                self.start_new_line(screen, 0);
            }
        } else if code == 0x08 {
            if self.cursor_position > 0 {
                let awaiting = matches!(self.window_status, WindowStatus::AwaitingInput);
                let row_to_use = if awaiting {
                    self.input_row
                } else {
                    self.current_row
                };
                let ghost pre = self.grid()[row_to_use as int];
                let cur = self.cursor_position;
                let num = self.num_letters;
                let mut newrow: Vec<u8> = Vec::new();
                let mut m: usize = 0;
                while m < WINDOW_WIDTH
                    invariant
                        self.wf(),
                        cur >= 1,
                        cur <= num <= WINDOW_WIDTH,
                        row_to_use < WINDOW_HEIGHT,
                        m <= WINDOW_WIDTH,
                        newrow@.len() == m,
                        pre == self.grid()[row_to_use as int],
                        forall|k: int|
                            0 <= k < m ==> #[trigger] newrow@[k] == backspaced(pre, cur as int, num as int)[k],
                    decreases WINDOW_WIDTH - m,
                {
                    let v: u8 = if cur - 1 <= m && m + 1 < num {
                        self.letters[row_to_use][m + 1]
                    } else if num >= 1 && m == num - 1 {
                        0
                    } else {
                        self.letters[row_to_use][m]
                    };
                    newrow.push(v);
                    m += 1;
                }
                self.letters[row_to_use] = newrow;
                self.num_letters = num - 1;
                self.cursor_position = cur - 1;
                proof {
                    assert(self.grid()[row_to_use as int] =~= backspaced(
                        old(self).grid()[old(self).echo_row()],
                        old(self).cursor(),
                        old(self).letters_count(),
                    ));
                    assert(self.grid() =~~= old(self).grid().update(
                        old(self).echo_row(),
                        backspaced(
                            old(self).grid()[old(self).echo_row()],
                            old(self).cursor(),
                            old(self).letters_count(),
                        ),
                    ));
                }
                let off: usize = if awaiting {
                    1
                } else {
                    0
                };
                let actual = self.get_actual_row();
                self.clear_line(screen, actual + off);
                self.draw_current(screen, off);
            }
        } else if code >= 0x20 && code <= 0x7e {
            let b = code as u8;
            if matches!(self.window_status, WindowStatus::AwaitingInput) {
                if self.cursor_position < WINDOW_WIDTH {
                    let row_to_use = self.input_row;
                    self.letters[row_to_use][self.cursor_position] = b;
                    proof {
                        assert(self.grid()[old(self).echo_row()] =~= old(self).grid()[old(self).echo_row()].update(old(self).cursor(), key as u8));
                        assert(self.grid() =~~= old(self).grid().update(
                            old(self).echo_row(),
                            old(self).grid()[old(self).echo_row()].update(
                                old(self).cursor(),
                                key as u8,
                            ),
                        ));
                    }
                    self.cursor_position = self.cursor_position + 1;
                    if self.num_letters < self.cursor_position {
                        self.num_letters = self.cursor_position;
                    }
                    let actual = self.get_actual_row();
                    self.clear_line(screen, actual + 1);
                    self.draw_current(screen, 1);
                }
            } else {
                if self.cursor_position == WINDOW_WIDTH {
                    self.start_new_line(screen, 0);
                }
                let row_to_use = self.current_row;
                let ghost mid = *self;
                self.letters[row_to_use][self.cursor_position] = b;
                proof {
                    assert(self.grid()[mid.row()] =~= mid.grid()[mid.row()].update(
                        mid.cursor(),
                        key as u8,
                    ));
                    assert(self.grid() =~~= mid.grid().update(
                        mid.row(),
                        mid.grid()[mid.row()].update(mid.cursor(), key as u8),
                    ));
                }
                self.cursor_position = self.cursor_position + 1;
                if self.num_letters < self.cursor_position {
                    self.num_letters = self.cursor_position;
                }
                let actual = self.get_actual_row();
                self.clear_line(screen, actual);
                self.draw_current(screen, 0);
            }
        }
    }
}


impl SwimDocument {
    /// Loads a byte text into the grid: lines split on newline, each
    /// clipped to the window width, the rows past the last line left
    /// empty, and the cursor put at the top left.
    pub fn load_bytes(&mut self, bytes: &Vec<u8>)
        requires
            old(self).wf(),
            bytes@.len() <= MAX_FILE_BYTES,
        ensures
            final(self).wf(),
            forall|r: int|
                0 <= r < WINDOW_HEIGHT ==> #[trigger] final(self).grid()[r] == loaded_row(
                    line_at(split_lines(bytes@), r),
                ),
            final(self).cursor() == 0,
            final(self).row() == 0,
            final(self).letters_count() == row_len(final(self).grid()[0]),
            final(self).status() == old(self).status(),
            final(self).running() == old(self).running(),
            final(self).pending() == old(self).pending(),
            final(self).out_line() == old(self).out_line(),
            same_window_identity(*old(self), *final(self)),
    {
        self.clear_grid();
        let ghost lines = split_lines(bytes@);
        proof {
            assert(bytes@.skip(0) =~= bytes@);
            assert(lines.skip(0) =~~= lines);
        }
        let n = bytes.len();
        let mut row: usize = 0;
        let mut i: usize = 0;
        while row < WINDOW_HEIGHT && i <= n
            invariant
                self.wf(),
                n == bytes@.len(),
                n <= MAX_FILE_BYTES,
                row <= WINDOW_HEIGHT,
                i <= n + 1,
                lines == split_lines(bytes@),
                row <= lines.len(),
                i <= n ==> split_lines(bytes@.skip(i as int)) == lines.skip(row as int),
                i == n + 1 ==> lines.len() == row,
                forall|r: int|
                    0 <= r < row ==> #[trigger] self.grid()[r] == loaded_row(line_at(lines, r)),
                forall|r: int, c: int|
                    row <= r < WINDOW_HEIGHT && 0 <= c < WINDOW_WIDTH ==> #[trigger] self.grid()[r][c]
                        == 0,
                unchanged_but_grid(*old(self), *self),
                self.cursor_position == old(self).cursor_position,
                self.num_letters == old(self).num_letters,
                self.current_row == old(self).current_row,
            decreases n + 1 - i,
        {
            let mut j: usize = i;
            while j < n && bytes[j] != 0x0a
                invariant
                    i <= j <= n,
                    n == bytes@.len(),
                    forall|m: int| i <= m < j ==> bytes@[m] != 0x0a,
                decreases n - j,
            {
                j += 1;
            }
            let ghost line = line_at(lines, row as int);
            proof {
                let suff = bytes@.skip(i as int);
                assert forall|m: int| 0 <= m < j - i implies suff[m] != 0x0a by {
                    assert(suff[m] == bytes@[i + m]);
                }
                if j < n {
                    assert(suff[j - i] == bytes@[j as int]);
                }
                lemma_split_at(suff, j - i);
                if j < n {
                    assert(lines.skip(row as int) == seq![suff.take(j - i)] + split_lines(
                        suff.skip(j - i + 1),
                    ));
                    assert(lines.skip(row as int).len() >= 1);
                    assert(lines.len() > row);
                    assert(lines[row as int] == lines.skip(row as int)[0]);
                    assert(suff.take(j - i) =~= bytes@.subrange(i as int, j as int));
                    assert(suff.skip(j - i + 1) =~= bytes@.skip(j + 1));
                    assert(line == bytes@.subrange(i as int, j as int));
                    assert(lines.skip(row + 1) =~~= lines.skip(row as int).drop_first());
                    assert(lines.skip(row as int).drop_first() =~~= split_lines(bytes@.skip(j + 1)));
                } else {
                    assert(lines.skip(row as int) == seq![suff]);
                    assert(lines.len() > row);
                    assert(lines[row as int] == lines.skip(row as int)[0]);
                    assert(line == suff);
                    assert(lines.len() == row + 1);
                }
                assert(line.len() == j - i);
                assert(forall|c: int| 0 <= c < line.len() ==> line[c] == bytes@[i + c]);
            }
            let mut newrow: Vec<u8> = Vec::new();
            let mut k: usize = 0;
            while k < WINDOW_WIDTH
                invariant
                    k <= WINDOW_WIDTH,
                    newrow@.len() == k,
                    i <= j <= n,
                    n == bytes@.len(),
                    forall|c: int|
                        0 <= c < k ==> #[trigger] newrow@[c] == (if i + c < j {
                            bytes@[i + c]
                        } else {
                            0
                        }),
                decreases WINDOW_WIDTH - k,
            {
                let v: u8 = if k < j - i {
                    bytes[i + k]
                } else {
                    0
                };
                newrow.push(v);
                k += 1;
            }
            let ghost prev = self.grid();
            self.letters[row] = newrow;
            proof {
                assert forall|r: int| 0 <= r < WINDOW_HEIGHT && r != row implies #[trigger] self.grid()[r]
                    == prev[r] by {}
                assert(self.grid()[row as int] =~= loaded_row(line));
            }
            if j < n {
                i = j + 1;
            } else {
                i = n + 1;
            }
            row += 1;
        }
        proof {
            assert forall|r: int| 0 <= r < WINDOW_HEIGHT implies #[trigger] self.grid()[r]
                == loaded_row(line_at(lines, r)) by {
                if r >= row {
                    assert(row < WINDOW_HEIGHT);
                    assert(i == n + 1);
                    assert(lines.len() == row);
                    assert(line_at(lines, r) =~= Seq::<u8>::empty());
                    assert(self.grid()[r] =~= loaded_row(Seq::<u8>::empty()));
                }
            }
        }
        let ghost gsnap = self.grid();
        self.current_row = 0;
        self.cursor_position = 0;
        let len0 = self.get_line_length(0);
        self.num_letters = len0;
        proof {
            assert forall|r: int| 0 <= r < WINDOW_HEIGHT implies #[trigger] self.grid()[r]
                == loaded_row(line_at(lines, r)) by {
                assert(gsnap[r] == loaded_row(line_at(lines, r)));
                assert(self.grid()[r] == gsnap[r]);
            }
        }
    }
}


/// What an up-arrow does: while editing, with the window highlighted and a
/// row above, the cursor moves up, clamped to that row's text length, and
/// the letter count becomes that length; otherwise nothing.
pub open spec fn arrow_up_spec(a: SwimDocument, b: SwimDocument) -> bool {
    if a.status() == WindowStatus::EditingFile && a.is_active() && a.row() > 0 {
        &&& b.row() == a.row() - 1
        &&& b.cursor() == vstd::math::min(a.cursor(), row_len(a.grid()[a.row() - 1]))
        &&& b.letters_count() == row_len(a.grid()[a.row() - 1])
        &&& b.grid() == a.grid()
        &&& b.status() == a.status()
        &&& b.running() == a.running()
        &&& b.pending() == a.pending()
        &&& b.out_line() == a.out_line()
        &&& b.picked_file() == a.picked_file()
    } else {
        b == a
    }
}

/// What a down-arrow does: while editing, with the window highlighted and a
/// non-empty row below, the cursor moves down, clamped to that row's text
/// length; otherwise nothing.
pub open spec fn arrow_down_spec(a: SwimDocument, b: SwimDocument) -> bool {
    if a.status() == WindowStatus::EditingFile && a.is_active() && a.row() < WINDOW_HEIGHT - 1
        && !row_empty(a.grid()[a.row() + 1]) {
        &&& b.row() == a.row() + 1
        &&& b.cursor() == vstd::math::min(a.cursor(), row_len(a.grid()[a.row() + 1]))
        &&& b.letters_count() == row_len(a.grid()[a.row() + 1])
        &&& b.grid() == a.grid()
        &&& b.status() == a.status()
        &&& b.running() == a.running()
        &&& b.pending() == a.pending()
        &&& b.out_line() == a.out_line()
        &&& b.picked_file() == a.picked_file()
    } else {
        b == a
    }
}

/// What a left-arrow does: in the listing it moves the pick left; while
/// editing it moves the cursor left; at either left edge, or without the
/// highlight, nothing.
pub open spec fn arrow_left_spec(a: SwimDocument, b: SwimDocument) -> bool {
    if !a.is_active() {
        b == a
    } else if a.status() == WindowStatus::DisplayingFiles && a.picked_file() > 0 {
        &&& b.picked_file() == a.picked_file() - 1
        &&& b.grid() == a.grid()
        &&& b.cursor() == a.cursor()
        &&& b.letters_count() == a.letters_count()
        &&& b.row() == a.row()
        &&& b.status() == a.status()
        &&& b.running() == a.running()
        &&& b.pending() == a.pending()
        &&& b.out_line() == a.out_line()
    } else if a.status() == WindowStatus::EditingFile && a.cursor() > 0 {
        &&& b.cursor() == a.cursor() - 1
        &&& b.grid() == a.grid()
        &&& b.letters_count() == a.letters_count()
        &&& b.row() == a.row()
        &&& b.status() == a.status()
        &&& b.running() == a.running()
        &&& b.pending() == a.pending()
        &&& b.out_line() == a.out_line()
        &&& b.picked_file() == a.picked_file()
    } else {
        b == a
    }
}

/// What a right-arrow does: in the listing it moves the pick right, stopped
/// at the last entry; while editing it moves the cursor right, stopped at
/// the letter count; without the highlight, nothing.
pub open spec fn arrow_right_spec(a: SwimDocument, b: SwimDocument) -> bool {
    if !a.is_active() {
        b == a
    } else if a.status() == WindowStatus::DisplayingFiles && a.picked_file() < a.dir().len() - 1 {
        &&& b.picked_file() == a.picked_file() + 1
        &&& b.grid() == a.grid()
        &&& b.cursor() == a.cursor()
        &&& b.letters_count() == a.letters_count()
        &&& b.row() == a.row()
        &&& b.status() == a.status()
        &&& b.running() == a.running()
        &&& b.pending() == a.pending()
        &&& b.out_line() == a.out_line()
    } else if a.status() == WindowStatus::EditingFile && a.cursor() < a.letters_count() {
        &&& b.cursor() == a.cursor() + 1
        &&& b.grid() == a.grid()
        &&& b.letters_count() == a.letters_count()
        &&& b.row() == a.row()
        &&& b.status() == a.status()
        &&& b.running() == a.running()
        &&& b.pending() == a.pending()
        &&& b.out_line() == a.out_line()
        &&& b.picked_file() == a.picked_file()
    } else {
        b == a
    }
}

/// What one key does to a window: arrows move the pick or the cursor, a
/// character key edits or composes input, and every other key is ignored.
pub open spec fn doc_key_spec(a: SwimDocument, b: SwimDocument, key: KeyInput) -> bool {
    match key {
        KeyInput::ArrowUp => arrow_up_spec(a, b),
        KeyInput::ArrowDown => arrow_down_spec(a, b),
        KeyInput::ArrowLeft => arrow_left_spec(a, b),
        KeyInput::ArrowRight => arrow_right_spec(a, b),
        KeyInput::Unicode(c) => if a.status() == WindowStatus::EditingFile || a.status()
            == WindowStatus::AwaitingInput {
            unicode_key_spec(a, b, c) && b.picked_file() == a.picked_file()
        } else {
            b == a
        },
        _ => b == a,
    }
}

impl SwimDocument {
    /// Records the picked file's name, loads its content into the grid,
    /// and switches to editing.
    pub fn start_edit(&mut self, screen: &mut Screen)
        requires
            old(self).wf(),
            old(screen).wf(),
            old(self).status() == WindowStatus::DisplayingFiles,
        ensures
            final(self).wf(),
            final(screen).wf(),
            final(self).status() == WindowStatus::EditingFile,
            final(self).editing_name() == old(self).dir()[old(self).picked_file()],
            forall|r: int|
                0 <= r < WINDOW_HEIGHT ==> #[trigger] final(self).grid()[r] == loaded_row(
                    line_at(
                        split_lines(old(self).files()[old(self).dir()[old(self).picked_file()]]),
                        r,
                    ),
                ),
            final(self).cursor() == 0,
            final(self).row() == 0,
            final(self).letters_count() == row_len(final(self).grid()[0]),
            final(self).files() == old(self).files(),
            final(self).dir() == old(self).dir(),
            final(self).picked_file() == old(self).picked_file(),
            final(self).is_active() == old(self).is_active(),
            final(self).origin_col() == old(self).origin_col(),
            final(self).origin_row() == old(self).origin_row(),
            final(self).running() == old(self).running(),
            final(self).pending() == old(self).pending(),
            final(self).out_line() == old(self).out_line(),
            old(self).box_frame(*old(screen), *final(screen)),
    {
        proof {
            self.file_system.lemma_dir_bounds();
        }
        let name = self.file_system.file_name_at(self.active_file);
        let bytes = match self.file_system.read_file(&name) {
            Ok(b) => b,
            Err(_) => {
                proof {
                    assert(false);
                }
                Vec::new()
            },
        };
        self.current_editing_file = name;
        self.load_bytes(&bytes);
        self.window_status = WindowStatus::EditingFile;
        let ghost gsnap = self.grid();
        self.clear_window(screen);
        self.draw_all_lines(screen);
        proof {
            assert forall|r: int| 0 <= r < WINDOW_HEIGHT implies #[trigger] self.grid()[r]
                == loaded_row(
                line_at(
                    split_lines(old(self).files()[old(self).dir()[old(self).picked_file()]]),
                    r,
                ),
            ) by {
                assert(self.grid()[r] == gsnap[r]);
            }
        }
    }

    /// Loads the picked file, clears the window for output, and hands back
    /// a fresh program built from the file's text.
    pub fn start_run(&mut self, screen: &mut Screen) -> (ip: Interpreter)
        requires
            old(self).wf(),
            old(screen).wf(),
            old(self).status() == WindowStatus::DisplayingFiles,
        ensures
            final(self).wf(),
            final(screen).wf(),
            final(self).status() == WindowStatus::ExecutingFile,
            final(self).running(),
            final(self).out_line() == 0,
            final(self).cursor() == 0,
            final(self).letters_count() == 0,
            final(self).row() == 0,
            final(self).pending() is None,
            forall|r: int, c: int|
                0 <= r < WINDOW_HEIGHT && 0 <= c < WINDOW_WIDTH
                    ==> #[trigger] final(self).grid()[r][c] == 0,
            final(self).files() == old(self).files(),
            final(self).dir() == old(self).dir(),
            final(self).picked_file() == old(self).picked_file(),
            final(self).is_active() == old(self).is_active(),
            final(self).origin_col() == old(self).origin_col(),
            final(self).origin_row() == old(self).origin_row(),
            final(self).editing_name() == old(self).editing_name(),
            ip.wf(),
            !ip.has_pending(),
            crate::interp::built_from(
                old(self).files()[old(self).dir()[old(self).picked_file()]],
                ip,
            ),
            old(self).box_frame(*old(screen), *final(screen)),
    {
        proof {
            self.file_system.lemma_dir_bounds();
        }
        let name = self.file_system.file_name_at(self.active_file);
        let bytes = match self.file_system.read_file(&name) {
            Ok(b) => b,
            Err(_) => {
                proof {
                    assert(false);
                }
                Vec::new()
            },
        };
        self.window_status = WindowStatus::ExecutingFile;
        self.clear_grid();
        let ghost gsnap = self.grid();
        self.clear_window(screen);
        self.output_line = 0;
        self.current_row = 0;
        self.cursor_position = 0;
        self.num_letters = 0;
        self.pending_line = None;
        self.program_running = true;
        proof {
            assert forall|r: int, c: int|
                0 <= r < WINDOW_HEIGHT && 0 <= c < WINDOW_WIDTH implies #[trigger] self.grid()[r][c]
                == 0 by {
                assert(self.grid()[r] == gsnap[r]);
                assert(gsnap[r][c] == 0);
            }
        }
        Interpreter::new(&bytes)
    }

    /// Returns the window to its directory listing: the grid and window
    /// area are cleared, the program flag drops, and any composed input is
    /// abandoned.
    pub fn reset_to_files(&mut self, screen: &mut Screen)
        requires
            old(self).wf(),
            old(screen).wf(),
        ensures
            final(self).wf(),
            final(screen).wf(),
            final(self).status() == WindowStatus::DisplayingFiles,
            !final(self).running(),
            final(self).cursor() == 0,
            final(self).letters_count() == 0,
            final(self).row() == 0,
            final(self).out_line() == 0,
            final(self).pending() is None,
            forall|r: int, c: int|
                0 <= r < WINDOW_HEIGHT && 0 <= c < WINDOW_WIDTH
                    ==> #[trigger] final(self).grid()[r][c] == 0,
            final(self).files() == old(self).files(),
            final(self).dir() == old(self).dir(),
            final(self).picked_file() == old(self).picked_file(),
            final(self).is_active() == old(self).is_active(),
            final(self).origin_col() == old(self).origin_col(),
            final(self).origin_row() == old(self).origin_row(),
            final(self).editing_name() == old(self).editing_name(),
            old(self).box_frame(*old(screen), *final(screen)),
    {
        self.clear_grid();
        let ghost gsnap = self.grid();
        self.clear_window(screen);
        self.window_status = WindowStatus::DisplayingFiles;
        self.program_running = false;
        self.cursor_position = 0;
        self.num_letters = 0;
        self.current_row = 0;
        self.pending_line = None;
        self.output_line = 0;
        proof {
            assert forall|r: int, c: int|
                0 <= r < WINDOW_HEIGHT && 0 <= c < WINDOW_WIDTH implies #[trigger] self.grid()[r][c]
                == 0 by {
                assert(self.grid()[r] == gsnap[r]);
                assert(gsnap[r][c] == 0);
            }
        }
    }

    /// Stores a whole file in this window's own directory.
    pub fn save_named(&mut self, name: &Vec<u8>, data: &Vec<u8>) -> (r: Result<
        (),
        crate::storage::FsError,
    >)
        requires
            old(self).wf(),
            data@.len() <= MAX_FILE_BYTES,
        ensures
            final(self).wf(),
            unchanged_but_files(*old(self), *final(self)),
            r is Ok <==> (1 <= name@.len() <= MAX_FILENAME_BYTES && (old(self).files().dom().contains(name@) || old(self).dir().len() < crate::MAX_FILES_STORED)),
            r is Ok ==> final(self).files() == old(self).files().insert(name@, data@),
            r is Ok ==> final(self).dir() == (if old(self).files().dom().contains(name@) {
                old(self).dir()
            } else {
                old(self).dir().push(name@)
            }),
            r is Err ==> final(self).files() == old(self).files() && final(self).dir() == old(self).dir(),
    {
        self.file_system.save_file(name, data)
    }

    /// Reads a whole file from this window's own directory.
    pub fn read_named(&mut self, name: &Vec<u8>) -> (r: Result<Vec<u8>, crate::storage::FsError>)
        requires
            old(self).wf(),
        ensures
            final(self).wf(),
            unchanged_but_files(*old(self), *final(self)),
            final(self).files() == old(self).files(),
            final(self).dir() == old(self).dir(),
            r is Ok <==> old(self).files().dom().contains(name@),
            r matches Ok(bytes) ==> bytes@ == old(self).files()[name@],
    {
        self.file_system.read_file(name)
    }

    /// Shows one printed line: it lands on the next output row; when the
    /// window is full, everything first slides up one row and the oldest
    /// line is lost.
    fn handle_printed(&mut self, screen: &mut Screen, line: &Vec<u8>)
        requires
            old(self).wf(),
            old(screen).wf(),
        ensures
            final(self).wf(),
            final(screen).wf(),
            same_window_identity(*old(self), *final(self)),
            crate::screen::same_outside(
                *old(screen),
                *final(screen),
                old(self).origin_row(),
                old(self).origin_row() + WINDOW_HEIGHT - 1,
                old(self).origin_col(),
                old(self).origin_col() + WINDOW_WIDTH - 1,
            ),
            final(self).grid() == old(self).grid(),
            final(self).cursor() == old(self).cursor(),
            final(self).letters_count() == old(self).letters_count(),
            final(self).row() == old(self).row(),
            final(self).status() == old(self).status(),
            final(self).running() == old(self).running(),
            final(self).pending() == old(self).pending(),
            final(self).out_line() == (if old(self).out_line() >= WINDOW_HEIGHT {
                WINDOW_HEIGHT as int
            } else {
                old(self).out_line() + 1
            }),
            forall|k: int|
                0 <= k < line@.len() && k < WINDOW_WIDTH ==> #[trigger] final(screen).cell(
                    old(self).origin_row() + final(self).out_line() - 1,
                    old(self).origin_col() + k,
                ) == (crate::screen::ScreenCell {
                    ch: line@[k],
                    fg: Color::White,
                    bg: Color::Black,
                }),
            old(self).out_line() >= WINDOW_HEIGHT ==> forall|r: int, c: int|
                0 <= r < WINDOW_HEIGHT - 1 && 0 <= c < WINDOW_WIDTH ==> #[trigger] final(screen).cell(old(self).origin_row() + r, old(self).origin_col() + c) == old(screen).cell(
                    old(self).origin_row() + r + 1,
                    old(self).origin_col() + c,
                ),
            old(self).out_line() < WINDOW_HEIGHT ==> forall|r: int, c: int|
                0 <= r < WINDOW_HEIGHT && r != old(self).out_line() && 0 <= c < WINDOW_WIDTH
                    ==> #[trigger] final(screen).cell(
                    old(self).origin_row() + r,
                    old(self).origin_col() + c,
                ) == old(screen).cell(old(self).origin_row() + r, old(self).origin_col() + c),
    {
        if self.output_line >= WINDOW_HEIGHT {
            let mut r: usize = 0;
            while r < WINDOW_HEIGHT - 1
                invariant
                    self.wf(),
                    screen.wf(),
                    *self == *old(self),
                    r <= WINDOW_HEIGHT - 1,
                    crate::screen::same_outside(
                        *old(screen),
                        *screen,
                        self.origin_row(),
                        self.origin_row() + WINDOW_HEIGHT - 1,
                        self.origin_col(),
                        self.origin_col() + WINDOW_WIDTH - 1,
                    ),
                    forall|rr: int, cc: int|
                        0 <= rr < r && 0 <= cc < WINDOW_WIDTH ==> #[trigger] screen.cell(
                            self.origin_row() + rr,
                            self.origin_col() + cc,
                        ) == old(screen).cell(self.origin_row() + rr + 1, self.origin_col() + cc),
                    forall|rr: int, cc: int|
                        r <= rr < WINDOW_HEIGHT && 0 <= cc < WINDOW_WIDTH ==> #[trigger] screen.cell(
                            self.origin_row() + rr,
                            self.origin_col() + cc,
                        ) == old(screen).cell(self.origin_row() + rr, self.origin_col() + cc),
                decreases WINDOW_HEIGHT - 1 - r,
            {
                let mut c: usize = 0;
                while c < WINDOW_WIDTH
                    invariant
                        self.wf(),
                        screen.wf(),
                        *self == *old(self),
                        r < WINDOW_HEIGHT - 1,
                        c <= WINDOW_WIDTH,
                        crate::screen::same_outside(
                            *old(screen),
                            *screen,
                            self.origin_row(),
                            self.origin_row() + WINDOW_HEIGHT - 1,
                            self.origin_col(),
                            self.origin_col() + WINDOW_WIDTH - 1,
                        ),
                        forall|rr: int, cc: int|
                            0 <= rr < r && 0 <= cc < WINDOW_WIDTH ==> #[trigger] screen.cell(
                                self.origin_row() + rr,
                                self.origin_col() + cc,
                            ) == old(screen).cell(
                                self.origin_row() + rr + 1,
                                self.origin_col() + cc,
                            ),
                        forall|cc: int|
                            0 <= cc < c ==> #[trigger] screen.cell(
                                self.origin_row() + r,
                                self.origin_col() + cc,
                            ) == old(screen).cell(
                                self.origin_row() + r + 1,
                                self.origin_col() + cc,
                            ),
                        forall|cc: int|
                            c <= cc < WINDOW_WIDTH ==> #[trigger] screen.cell(
                                self.origin_row() + r,
                                self.origin_col() + cc,
                            ) == old(screen).cell(self.origin_row() + r, self.origin_col() + cc),
                        forall|rr: int, cc: int|
                            r < rr < WINDOW_HEIGHT && 0 <= cc < WINDOW_WIDTH
                                ==> #[trigger] screen.cell(
                                self.origin_row() + rr,
                                self.origin_col() + cc,
                            ) == old(screen).cell(self.origin_row() + rr, self.origin_col() + cc),
                    decreases WINDOW_WIDTH - c,
                {
                    let cell = screen.cell_at(self.start_col + c, self.start_row + r + 1);
                    proof {
                        let rsrc: int = r + 1;
                        let csrc: int = c as int;
                        assert(screen.cell(self.origin_row() + rsrc, self.origin_col() + csrc)
                            == old(screen).cell(
                            self.origin_row() + rsrc,
                            self.origin_col() + csrc,
                        ));
                        assert(cell == old(screen).cell(
                            self.origin_row() + rsrc,
                            self.origin_col() + csrc,
                        ));
                    }
                    screen.plot(cell.ch, self.start_col + c, self.start_row + r, cell.fg, cell.bg);
                    proof {
                        assert((crate::screen::ScreenCell {
                            ch: cell.ch,
                            fg: cell.fg,
                            bg: cell.bg,
                        }) == cell);
                    }
                    c += 1;
                }
                r += 1;
            }
            self.output_line = WINDOW_HEIGHT - 1;
        }
        self.clear_line(screen, self.start_row + self.output_line);
        let mut shown = crate::storage::bytes_clone(line);
        if shown.len() > WINDOW_WIDTH {
            shown.truncate(WINDOW_WIDTH);
        }
        screen.plot_bytes(
            &shown,
            self.start_col,
            self.start_row + self.output_line,
            Color::White,
            Color::Black,
        );
        self.output_line = self.output_line + 1;
    }

    /// One scheduled tick for this window. When a composed input line
    /// waits, the tick delivers it and the queue empties; otherwise the
    /// running program advances one step, and what it reports
    /// drives the state machine: it keeps running, prints a line, finishes
    /// into the output view, or turns to await input with a fresh input
    /// line. A window already awaiting input only refreshes its echo.
    pub fn tick(&mut self, screen: &mut Screen, interpreter: &mut Option<Interpreter>)
        requires
            old(self).wf(),
            old(screen).wf(),
            old(self).status() == WindowStatus::ExecutingFile ==> ((*old(interpreter)) matches Some(ip) && ip.wf()),
        ensures
            final(self).wf(),
            final(screen).wf(),
            crate::screen::same_outside(
                *old(screen),
                *final(screen),
                old(self).origin_row(),
                old(self).origin_row() + WINDOW_HEIGHT,
                old(self).origin_col(),
                old(self).origin_col() + WINDOW_WIDTH,
            ),
            final(self).is_active() == old(self).is_active(),
            tick_spec(*old(self), *final(self), *old(interpreter), *final(interpreter)),
            (old(self).status() != WindowStatus::ExecutingFile && old(self).status()
                != WindowStatus::AwaitingInput) ==> *final(screen) == *old(screen),
            // what a step printed stands on the window's next output row
            (old(self).status() == WindowStatus::ExecutingFile && old(self).pending() is None)
                ==> ((*old(interpreter)) matches Some(p0) && exists|r: TickResult, p1: Interpreter|
                {
                    &&& #[trigger] crate::interp::step_spec(p0, r, p1)
                    &&& (r matches TickResult::Printed(line) ==> forall|k: int|
                        0 <= k < line@.len() && k < WINDOW_WIDTH ==> final(screen).cell(
                            old(self).origin_row() + final(self).out_line() - 1,
                            old(self).origin_col() + k,
                        ) == (crate::screen::ScreenCell {
                            ch: line@[k],
                            fg: Color::White,
                            bg: Color::Black,
                        }))
                }),
    {
        if matches!(self.window_status, WindowStatus::ExecutingFile) {
            match interpreter {
                Some(ip) => {
                    let ghost p0 = *ip;
                    if self.pending_line.is_some() {
                        let line = self.pending_line.take();
                        match line {
                            Some(l) => {
                                ip.provide_input(&l);
                            },
                            None => {},
                        }
                        let row0 = self.start_row;
                        self.clear_line(screen, row0);
                    } else {
                        let tr = ip.tick();
                        let ghost trg = tr;
                        let ghost p1 = *ip;
                        match tr {
                            TickResult::Continuing => {},
                            TickResult::Printed(out) => {
                                self.handle_printed(screen, &out);
                            },
                            TickResult::Finished => {
                                self.window_status = WindowStatus::DisplayingOutput;
                                self.program_running = false;
                                *interpreter = None;
                            },
                            TickResult::AwaitInput => {
                                self.window_status = WindowStatus::AwaitingInput;
                                let row1 = self.start_row + 1;
                                self.clear_line(screen, row1);
                                self.current_row = 0;
                                self.cursor_position = 0;
                                self.num_letters = 0;
                            },
                        }
                        proof {
                            assert(crate::interp::step_spec(p0, trg, p1));
                        }
                    }
                },
                None => {
                    proof {
                        assert(false);
                    }
                },
            }
        }
        if matches!(self.window_status, WindowStatus::AwaitingInput) {
            let actual = self.get_actual_row();
            self.clear_line(screen, actual + 1);
            self.draw_current(screen, 1);
            self.output_line = 0;
        }
    }

    /// One keyboard event for this window: arrows move the pick or the
    /// cursor, character keys edit or compose input, anything else is
    /// ignored.
    pub fn key(&mut self, screen: &mut Screen, key: KeyInput)
        requires
            old(self).wf(),
            old(screen).wf(),
        ensures
            final(self).wf(),
            final(screen).wf(),
            old(self).box_frame(*old(screen), *final(screen)),
            final(self).is_active() == old(self).is_active(),
            final(self).files() == old(self).files(),
            final(self).dir() == old(self).dir(),
            final(self).editing_name() == old(self).editing_name(),
            final(self).origin_col() == old(self).origin_col(),
            final(self).origin_row() == old(self).origin_row(),
            doc_key_spec(*old(self), *final(self), key),
    {
        match key {
            KeyInput::ArrowUp => {
                if self.active && matches!(self.window_status, WindowStatus::EditingFile)
                    && self.current_row > 0 {
                    screen.plot(
                        0x20,
                        self.start_col + self.cursor_position,
                        self.start_row + self.current_row,
                        Color::Black,
                        Color::Black,
                    );
                    self.current_row = self.current_row - 1;
                    let line_length = self.get_line_length(self.current_row);
                    if self.cursor_position > line_length {
                        self.cursor_position = line_length;
                    }
                    self.num_letters = line_length;
                    self.draw_all_lines(screen);
                }
            },
            KeyInput::ArrowDown => {
                if self.active && matches!(self.window_status, WindowStatus::EditingFile)
                    && self.current_row < WINDOW_HEIGHT - 1 {
                    if !self.is_line_empty(self.current_row + 1) {
                        screen.plot(
                            0x20,
                            self.start_col + self.cursor_position,
                            self.start_row + self.current_row,
                            Color::Black,
                            Color::Black,
                        );
                        self.current_row = self.current_row + 1;
                        let line_length = self.get_line_length(self.current_row);
                        if self.cursor_position > line_length {
                            self.cursor_position = line_length;
                        }
                        self.num_letters = line_length;
                        self.draw_all_lines(screen);
                    }
                }
            },
            KeyInput::ArrowLeft => {
                if self.active {
                    if matches!(self.window_status, WindowStatus::DisplayingFiles) {
                        if self.active_file > 0 {
                            self.active_file = self.active_file - 1;
                        }
                    } else if matches!(self.window_status, WindowStatus::EditingFile) {
                        if self.cursor_position > 0 {
                            let actual = self.get_actual_row();
                            self.clear_line(screen, actual);
                            self.cursor_position = self.cursor_position - 1;
                            self.draw_current(screen, 0);
                        }
                    }
                }
            },
            KeyInput::ArrowRight => {
                if self.active {
                    if matches!(self.window_status, WindowStatus::DisplayingFiles) {
                        let num_files = self.file_system.num_files();
                        if self.active_file < num_files - 1 {
                            self.active_file = self.active_file + 1;
                        }
                    } else if matches!(self.window_status, WindowStatus::EditingFile) {
                        if self.cursor_position < self.num_letters {
                            self.cursor_position = self.cursor_position + 1;
                            self.draw_current(screen, 0);
                        }
                    }
                }
            },
            KeyInput::Unicode(c) => {
                if matches!(self.window_status, WindowStatus::EditingFile) || matches!(
                    self.window_status,
                    WindowStatus::AwaitingInput,
                ) {
                    self.handle_unicode(screen, c);
                }
            },
            _ => {},
        }
    }
}


impl SwimDocument {
    /// Sets or clears the highlight flag; nothing else moves.
    pub fn set_active(&mut self, flag: bool)
        requires
            old(self).wf(),
        ensures
            final(self).wf(),
            final(self).is_active() == flag,
            same_but_active(*old(self), *final(self)),
    {
        self.active = flag;
    }

    /// The saved-name record as bytes.
    pub fn editing_name_bytes(&self) -> (v: Vec<u8>)
        requires
            self.wf(),
        ensures
            v@ == self.editing_name(),
            v@.len() <= MAX_FILENAME_BYTES,
    {
        bytes_clone(&self.current_editing_file)
    }
}


impl SwimDocument {
    /// The window's mode, read back.
    pub fn status_val(&self) -> (r: WindowStatus)
        ensures
            r == self.status(),
    {
        self.window_status
    }

    /// Whether a program of this window runs, read back.
    pub fn running_val(&self) -> (r: bool)
        ensures
            r == self.running(),
    {
        self.program_running
    }

    /// The screen row of the window's top-left text cell, read back.
    pub fn origin_row_val(&self) -> (r: usize)
        requires
            self.wf(),
        ensures
            r == self.origin_row(),
            2 <= r && r + WINDOW_HEIGHT + 1 <= SCREEN_HEIGHT,
    {
        self.start_row
    }

    /// The screen column of the window's top-left text cell, read back.
    pub fn origin_col_val(&self) -> (r: usize)
        requires
            self.wf(),
        ensures
            r == self.origin_col(),
            1 <= r && r + WINDOW_WIDTH + 1 <= SCREEN_WIDTH,
    {
        self.start_col
    }
}


impl SwimDocument {
    /// The cursor column, read back.
    pub fn cursor_val(&self) -> (r: usize)
        ensures
            r as int == self.cursor(),
    {
        self.cursor_position
    }

    /// The letter count, read back.
    pub fn letters_count_val(&self) -> (r: usize)
        ensures
            r as int == self.letters_count(),
    {
        self.num_letters
    }

    /// The cursor row, read back.
    pub fn row_val(&self) -> (r: usize)
        ensures
            r as int == self.row(),
    {
        self.current_row
    }

    /// The text of one grid row.
    pub fn line_text(&self, r: usize) -> (v: Vec<u8>)
        requires
            self.wf(),
            r < WINDOW_HEIGHT,
        ensures
            v@ == row_text(self.grid()[r as int]),
    {
        let n = self.get_line_length(r);
        let mut v: Vec<u8> = Vec::new();
        let mut k: usize = 0;
        while k < n
            invariant
                self.wf(),
                r < WINDOW_HEIGHT,
                k <= n,
                n == row_len(self.grid()[r as int]),
                n <= WINDOW_WIDTH,
                v@ == self.grid()[r as int].take(k as int),
            decreases n - k,
        {
            v.push(self.letters[r][k]);
            proof {
                assert(v@ =~= self.grid()[r as int].take(k + 1 as int));
            }
            k += 1;
        }
        v
    }
}

} // verus!
