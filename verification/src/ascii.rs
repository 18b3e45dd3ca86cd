//! The characters of ASCII: what is shown for each code point, what it is
//! called, and how a table of them is laid out.

use vstd::prelude::*;
use vstd::utf8::is_scalar;

verus! {

/// The last code point of ASCII.
pub const LAST_CODEPOINT: usize = 127;

/// The first code point that is no control character: the space.
pub const FIRST_PRINTABLE: usize = 32;

/// The width of one column of the table: six cells of ten characters and
/// three separators.
pub const TOTAL_COLUMN_WIDTH: usize = 63;

/// The columns of a table where the terminal's width is not known.
pub const DEFAULT_COLUMNS: usize = 2;

/// `char::from_u32`: the character with the code `v`, where `v` is a Unicode
/// scalar value, and nothing where it is not.
#[verifier::external_body]
fn char_from_u32(v: u32) -> (r: Option<char>)
    ensures
        r is Some <==> is_scalar(v),
        r matches Some(c) ==> c as u32 == v,
{
    char::from_u32(v)
}

/// Whether the table shows a space for the code point: it does for the
/// control characters, the space itself and delete.
pub open spec fn spec_shown_as_space(codepoint: usize) -> bool {
    codepoint <= 32 || codepoint == 127
}

/// The low 32 bits of a code point.
pub open spec fn spec_low_bits(codepoint: usize) -> u32 {
    (codepoint as int % 0x1_0000_0000) as u32
}

/// The character that the table shows for a code point: a space for the
/// control characters and for delete, and else the character with that code,
/// of which only the low 32 bits count; nothing where that is no character.
pub fn codepoint_char(codepoint: usize) -> (r: Option<char>)
    ensures
        spec_shown_as_space(codepoint) ==> r == Some(' '),
        !spec_shown_as_space(codepoint) ==> (r is Some <==> is_scalar(spec_low_bits(codepoint))),
        !spec_shown_as_space(codepoint) ==> (r matches Some(c) ==> c as u32 == spec_low_bits(
            codepoint,
        )),
{
    if codepoint <= 32 || codepoint == 127 {
        Some(' ')
    } else {
        let low: u32 = (codepoint as u64 % 0x1_0000_0000) as u32;
        char_from_u32(low)
    }
}

/// The name of a code point: for each of the 128 code points of ASCII its
/// own, for every other `<Unknown>`.
pub open spec fn spec_codepoint_name(codepoint: usize) -> Seq<char> {
    match codepoint {
        0 => "Null"@,
        1 => "Start of heading"@,
        2 => "Start of text"@,
        3 => "End of text"@,
        4 => "End of transmission"@,
        5 => "Enquiry"@,
        6 => "Acknowledge"@,
        7 => "Bell"@,
        8 => "Backspace"@,
        9 => "Horizontal tab"@,
        10 => "Line feed"@,
        11 => "Vertical tab"@,
        12 => "Form feed"@,
        13 => "Carriage return"@,
        14 => "Shift out"@,
        15 => "Shift in"@,
        16 => "Data link escape"@,
        17 => "Device control 1"@,
        18 => "Device control 2"@,
        19 => "Device control 3"@,
        20 => "Device control 4"@,
        21 => "Negative acknowledge"@,
        22 => "Synchronous idle"@,
        23 => "End of transmission block"@,
        24 => "Cancel"@,
        25 => "End of medium"@,
        26 => "Substitute"@,
        27 => "Escape"@,
        28 => "File separator"@,
        29 => "Group separator"@,
        30 => "Record separator"@,
        31 => "Unit separator"@,
        32 => "Space"@,
        33 => "Exclamation mark"@,
        34 => "Quotation mark"@,
        35 => "Hash"@,
        36 => "Dollar sign"@,
        37 => "Percent sign"@,
        38 => "Ampersand"@,
        39 => "Apostrophe"@,
        40 => "Left Parenthesis"@,
        41 => "Right Parenthesis"@,
        42 => "Asterisk"@,
        43 => "Plus sign"@,
        44 => "Comma"@,
        45 => "Hyphen"@,
        46 => "Dot/Period"@,
        47 => "Slash / Solidus"@,
        48 => "Zero"@,
        49 => "One"@,
        50 => "Two"@,
        51 => "Three"@,
        52 => "Four"@,
        53 => "Five"@,
        54 => "Six"@,
        55 => "Seven"@,
        56 => "Eight"@,
        57 => "Nine"@,
        58 => "Colon"@,
        59 => "Semi-colon"@,
        60 => "Less than"@,
        61 => "Equals"@,
        62 => "Greater than"@,
        63 => "Question mark"@,
        64 => "At sign"@,
        65 => "Capital A"@,
        66 => "Capital B"@,
        67 => "Capital C"@,
        68 => "Capital D"@,
        69 => "Capital E"@,
        70 => "Capital F"@,
        71 => "Capital G"@,
        72 => "Capital H"@,
        73 => "Capital I"@,
        74 => "Capital J"@,
        75 => "Capital K"@,
        76 => "Capital L"@,
        77 => "Capital M"@,
        78 => "Capital N"@,
        79 => "Capital O"@,
        80 => "Capital P"@,
        81 => "Capital Q"@,
        82 => "Capital R"@,
        83 => "Capital S"@,
        84 => "Capital T"@,
        85 => "Capital U"@,
        86 => "Capital V"@,
        87 => "Capital W"@,
        88 => "Capital X"@,
        89 => "Capital Y"@,
        90 => "Capital Z"@,
        91 => "Left square bracket"@,
        92 => "Backslash"@,
        93 => "Right square bracket"@,
        94 => "Caret / Circumflex"@,
        95 => "Underscore"@,
        96 => "Grave / Backtick"@,
        97 => "A"@,
        98 => "B"@,
        99 => "C"@,
        100 => "D"@,
        101 => "E"@,
        102 => "F"@,
        103 => "G"@,
        104 => "H"@,
        105 => "I"@,
        106 => "J"@,
        107 => "K"@,
        108 => "L"@,
        109 => "M"@,
        110 => "N"@,
        111 => "O"@,
        112 => "P"@,
        113 => "Q"@,
        114 => "R"@,
        115 => "S"@,
        116 => "T"@,
        117 => "U"@,
        118 => "V"@,
        119 => "W"@,
        120 => "X"@,
        121 => "Y"@,
        122 => "Z"@,
        123 => "Left curly brace"@,
        124 => "Pipe"@,
        125 => "Right curly brace"@,
        126 => "Tilde"@,
        127 => "Delete"@,
        _ => "<Unknown>"@,
    }
}

/// The name of a code point. Every code point has one: those beyond ASCII
/// are all called `<Unknown>`.
pub fn codepoint_name(codepoint: usize) -> (r: Option<&'static str>)
    ensures
        r is Some,
        r->Some_0@ == spec_codepoint_name(codepoint),
{
    match codepoint {
        0 => Some("Null"),
        1 => Some("Start of heading"),
        2 => Some("Start of text"),
        3 => Some("End of text"),
        4 => Some("End of transmission"),
        5 => Some("Enquiry"),
        6 => Some("Acknowledge"),
        7 => Some("Bell"),
        8 => Some("Backspace"),
        9 => Some("Horizontal tab"),
        10 => Some("Line feed"),
        11 => Some("Vertical tab"),
        12 => Some("Form feed"),
        13 => Some("Carriage return"),
        14 => Some("Shift out"),
        15 => Some("Shift in"),
        16 => Some("Data link escape"),
        17 => Some("Device control 1"),
        18 => Some("Device control 2"),
        19 => Some("Device control 3"),
        20 => Some("Device control 4"),
        21 => Some("Negative acknowledge"),
        22 => Some("Synchronous idle"),
        23 => Some("End of transmission block"),
        24 => Some("Cancel"),
        25 => Some("End of medium"),
        26 => Some("Substitute"),
        27 => Some("Escape"),
        28 => Some("File separator"),
        29 => Some("Group separator"),
        30 => Some("Record separator"),
        31 => Some("Unit separator"),
        32 => Some("Space"),
        33 => Some("Exclamation mark"),
        34 => Some("Quotation mark"),
        35 => Some("Hash"),
        36 => Some("Dollar sign"),
        37 => Some("Percent sign"),
        38 => Some("Ampersand"),
        39 => Some("Apostrophe"),
        40 => Some("Left Parenthesis"),
        41 => Some("Right Parenthesis"),
        42 => Some("Asterisk"),
        43 => Some("Plus sign"),
        44 => Some("Comma"),
        45 => Some("Hyphen"),
        46 => Some("Dot/Period"),
        47 => Some("Slash / Solidus"),
        48 => Some("Zero"),
        49 => Some("One"),
        50 => Some("Two"),
        51 => Some("Three"),
        52 => Some("Four"),
        53 => Some("Five"),
        54 => Some("Six"),
        55 => Some("Seven"),
        56 => Some("Eight"),
        57 => Some("Nine"),
        58 => Some("Colon"),
        59 => Some("Semi-colon"),
        60 => Some("Less than"),
        61 => Some("Equals"),
        62 => Some("Greater than"),
        63 => Some("Question mark"),
        64 => Some("At sign"),
        65 => Some("Capital A"),
        66 => Some("Capital B"),
        67 => Some("Capital C"),
        68 => Some("Capital D"),
        69 => Some("Capital E"),
        70 => Some("Capital F"),
        71 => Some("Capital G"),
        72 => Some("Capital H"),
        73 => Some("Capital I"),
        74 => Some("Capital J"),
        75 => Some("Capital K"),
        76 => Some("Capital L"),
        77 => Some("Capital M"),
        78 => Some("Capital N"),
        79 => Some("Capital O"),
        80 => Some("Capital P"),
        81 => Some("Capital Q"),
        82 => Some("Capital R"),
        83 => Some("Capital S"),
        84 => Some("Capital T"),
        85 => Some("Capital U"),
        86 => Some("Capital V"),
        87 => Some("Capital W"),
        88 => Some("Capital X"),
        89 => Some("Capital Y"),
        90 => Some("Capital Z"),
        91 => Some("Left square bracket"),
        92 => Some("Backslash"),
        93 => Some("Right square bracket"),
        94 => Some("Caret / Circumflex"),
        95 => Some("Underscore"),
        96 => Some("Grave / Backtick"),
        97 => Some("A"),
        98 => Some("B"),
        99 => Some("C"),
        100 => Some("D"),
        101 => Some("E"),
        102 => Some("F"),
        103 => Some("G"),
        104 => Some("H"),
        105 => Some("I"),
        106 => Some("J"),
        107 => Some("K"),
        108 => Some("L"),
        109 => Some("M"),
        110 => Some("N"),
        111 => Some("O"),
        112 => Some("P"),
        113 => Some("Q"),
        114 => Some("R"),
        115 => Some("S"),
        116 => Some("T"),
        117 => Some("U"),
        118 => Some("V"),
        119 => Some("W"),
        120 => Some("X"),
        121 => Some("Y"),
        122 => Some("Z"),
        123 => Some("Left curly brace"),
        124 => Some("Pipe"),
        125 => Some("Right curly brace"),
        126 => Some("Tilde"),
        127 => Some("Delete"),
        _ => Some("<Unknown>"),
    }
}

/// How the table is laid out: the code points run down the columns.
#[derive(Clone, Copy, Debug, PartialEq, Eq, Structural)]
pub struct TableLayout {
    /// The code point of the first cell.
    pub first_codepoint: usize,
    pub columns: usize,
    pub rows: usize,
}

/// The layout for a terminal of the given width, if it is known: as many
/// columns as fit, at least one, and two where the width is not known; as
/// many rows as all columns can be filled with. The table starts with the
/// space, or with code point 0 where all are to be shown.
pub open spec fn spec_table_layout(show_all: bool, terminal_width: Option<u16>) -> TableLayout {
    let first_codepoint = if show_all {
        0usize
    } else {
        FIRST_PRINTABLE
    };
    let columns = match terminal_width {
        Some(w) => if w as usize / TOTAL_COLUMN_WIDTH >= 1 {
            w as usize / TOTAL_COLUMN_WIDTH
        } else {
            1usize
        },
        None => DEFAULT_COLUMNS,
    };
    TableLayout {
        first_codepoint,
        columns,
        rows: ((LAST_CODEPOINT - first_codepoint + 1) / columns as int) as usize,
    }
}

/// Lays the table out for a terminal of the given width.
pub fn table_layout(show_all: bool, terminal_width: Option<u16>) -> (layout: TableLayout)
    ensures
        layout == spec_table_layout(show_all, terminal_width),
        layout.well_formed(),
{
    let first_codepoint: usize = if show_all {
        0
    } else {
        FIRST_PRINTABLE
    };
    let columns: usize = match terminal_width {
        Some(w) => {
            let fit = w as usize / TOTAL_COLUMN_WIDTH;
            if fit >= 1 {
                fit
            } else {
                1
            }
        },
        None => DEFAULT_COLUMNS,
    };
    let rows = (LAST_CODEPOINT - first_codepoint + 1) / columns;
    proof {
        let total = (LAST_CODEPOINT - first_codepoint + 1) as int;
        assert(rows * columns <= total) by (nonlinear_arith)
            requires
                rows == total / columns as int,
                columns >= 1,
                total >= 0,
        ;
    }
    TableLayout { first_codepoint, columns, rows }
}

impl TableLayout {
    /// The cells of the table are all code points of ASCII.
    pub open spec fn well_formed(self) -> bool {
        self.first_codepoint + self.rows * self.columns <= LAST_CODEPOINT + 1
    }

    /// The code point in a row and column: the columns are filled one after
    /// the other.
    pub open spec fn spec_cell(self, row: usize, column: usize) -> int {
        self.first_codepoint + row + self.rows * column
    }

    /// The code point shown in the given row and column.
    pub fn cell(&self, row: usize, column: usize) -> (codepoint: usize)
        requires
            self.well_formed(),
            row < self.rows,
            column < self.columns,
        ensures
            codepoint == self.spec_cell(row, column),
            self.first_codepoint <= codepoint <= LAST_CODEPOINT,
    {
        proof {
            lemma_cell_in_table(*self, row, column);
        }
        self.first_codepoint + row + self.rows * column
    }
}

/// Every cell of a well-formed table holds a code point of ASCII that is not
/// below the table's first.
pub proof fn lemma_cell_in_table(layout: TableLayout, row: usize, column: usize)
    requires
        layout.well_formed(),
        row < layout.rows,
        column < layout.columns,
    ensures
        layout.first_codepoint <= layout.spec_cell(row, column) <= LAST_CODEPOINT,
        0 <= layout.rows * column <= LAST_CODEPOINT,
{
    assert(layout.rows * column + layout.rows <= layout.rows * layout.columns)
        by (nonlinear_arith)
        requires
            column < layout.columns,
    ;
    assert(0 <= layout.rows * column) by (nonlinear_arith);
}

/// No code point is shown in two cells.
pub proof fn lemma_cells_differ(
    layout: TableLayout,
    row_a: usize,
    column_a: usize,
    row_b: usize,
    column_b: usize,
)
    requires
        row_a < layout.rows,
        row_b < layout.rows,
        layout.spec_cell(row_a, column_a) == layout.spec_cell(row_b, column_b),
    ensures
        row_a == row_b,
        column_a == column_b,
{
    if column_a < column_b {
        assert(layout.rows * column_b >= layout.rows * column_a + layout.rows)
            by (nonlinear_arith)
            requires
                column_a < column_b,
        ;
    } else if column_b < column_a {
        assert(layout.rows * column_a >= layout.rows * column_b + layout.rows)
            by (nonlinear_arith)
            requires
                column_b < column_a,
        ;
    }
}

} // verus!
