//! The file list as text: the column widths, the header, the cells and
//! colouring of each row, and which entries are on screen.
use vstd::prelude::*;
use crate::models::{lower_extension, truncate_str, truncated, ImageFile};
use crate::state::App;
use crate::text::{decimal, push_all, push_char, push_decimal, to_uppercase, unicode_uppercase, utf8_len};

verus! {

/// `s` padded with spaces on the right to `width` characters.
pub open spec fn pad_end(s: Seq<char>, width: nat) -> Seq<char> {
    if s.len() < width {
        s + Seq::new((width - s.len()) as nat, |i: int| ' ')
    } else {
        s
    }
}

/// `s` padded with spaces on the left to `width` characters.
pub open spec fn pad_start(s: Seq<char>, width: nat) -> Seq<char> {
    if s.len() < width {
        Seq::new((width - s.len()) as nat, |i: int| ' ') + s
    } else {
        s
    }
}

fn spaces(n: usize) -> (s: String)
    ensures
        s@ == Seq::new(n as nat, |i: int| ' '),
{
    let mut s = String::new();
    let mut k: usize = 0;
    while k < n
        invariant
            k <= n,
            s@ == Seq::new(k as nat, |i: int| ' '),
        decreases n - k,
    {
        push_char(&mut s, ' ');
        k = k + 1;
        proof {
            assert(s@ =~= Seq::new(k as nat, |i: int| ' '));
        }
    }
    s
}

fn char_count(s: &str) -> (n: usize)
    ensures
        n == s@.len(),
{
    crate::text::chars_of(s).len()
}

/// `s` left-aligned in a column of `width` characters.
pub fn pad_right(s: &str, width: usize) -> (r: String)
    ensures
        r@ == pad_end(s@, width as nat),
{
    let n = char_count(s);
    let mut r = s.to_string();
    if n < width {
        let sp = spaces(width - n);
        push_all(&mut r, &sp);
    }
    r
}

/// `s` right-aligned in a column of `width` characters.
pub fn pad_left(s: &str, width: usize) -> (r: String)
    ensures
        r@ == pad_start(s@, width as nat),
{
    let n = char_count(s);
    if n < width {
        let mut r = spaces(width - n);
        push_all(&mut r, s);
        r
    } else {
        s.to_string()
    }
}

/// The widths of the name and camera columns for a list `avail_width`
/// characters wide: the fixed minimum columns, with 40% of the spare width
/// given to the name and 30% to the camera.
pub open spec fn list_columns_spec(avail_width: nat) -> (nat, nat) {
    let extra: nat = if avail_width > 81 {
        (avail_width - 81) as nat
    } else {
        0
    };
    (20 + extra * 4 / 10, 15 + extra * 3 / 10)
}

/// The widths of the name and camera columns.
pub fn list_columns(avail_width: usize) -> (r: (usize, usize))
    requires
        avail_width <= 0xFFFF,
    ensures
        (r.0 as nat, r.1 as nat) == list_columns_spec(avail_width as nat),
{
    let extra = avail_width.saturating_sub(81);
    (20 + extra * 4 / 10, 15 + extra * 3 / 10)
}

/// The header cells of the file list, spacers included.
pub open spec fn list_header_spec(name_width: nat, exif_width: nat) -> Seq<Seq<char>> {
    seq![
        "  "@,
        pad_end("NAME"@, name_width),
        "  "@,
        pad_start("DIM"@, 10),
        "  "@,
        pad_start("MP"@, 6),
        "  "@,
        pad_start("SIZE"@, 7),
        "  "@,
        pad_start("COLOR"@, 5),
        "  "@,
        pad_end("EXIF"@, exif_width),
        "  "@,
        pad_start("TYPE"@, 4),
    ]
}

/// The views of a list of strings.
pub open spec fn strings_view(v: Seq<String>) -> Seq<Seq<char>> {
    v.map_values(|s: String| s@)
}

fn push_str_cell(cells: &mut Vec<String>, s: String)
    ensures
        strings_view(final(cells)@) == strings_view(old(cells)@).push(s@),
{
    let ghost before = cells@;
    cells.push(s);
    proof {
        assert(strings_view(cells@) =~= strings_view(before).push(s@));
    }
}

/// The header cells of the file list.
pub fn list_header(name_width: usize, exif_width: usize) -> (cells: Vec<String>)
    ensures
        strings_view(cells@) == list_header_spec(name_width as nat, exif_width as nat),
{
    let mut cells: Vec<String> = Vec::new();
    push_str_cell(&mut cells, "  ".to_string());
    push_str_cell(&mut cells, pad_right("NAME", name_width));
    push_str_cell(&mut cells, "  ".to_string());
    push_str_cell(&mut cells, pad_left("DIM", 10));
    push_str_cell(&mut cells, "  ".to_string());
    push_str_cell(&mut cells, pad_left("MP", 6));
    push_str_cell(&mut cells, "  ".to_string());
    push_str_cell(&mut cells, pad_left("SIZE", 7));
    push_str_cell(&mut cells, "  ".to_string());
    push_str_cell(&mut cells, pad_left("COLOR", 5));
    push_str_cell(&mut cells, "  ".to_string());
    push_str_cell(&mut cells, pad_right("EXIF", exif_width));
    push_str_cell(&mut cells, "  ".to_string());
    push_str_cell(&mut cells, pad_left("TYPE", 4));
    proof {
        assert(strings_view(cells@) =~= list_header_spec(name_width as nat, exif_width as nat));
    }
    cells
}

/// How a list row is coloured.
#[derive(Clone, Copy, Debug, PartialEq, Eq, Structural)]
pub enum RowTone {
    Selected,
    Queued,
    Parent,
    Directory,
    Plain,
}

/// The colouring of a row: the cursor first, then the queue, the parent
/// link and directories.
pub open spec fn row_tone(f: ImageFile, selected: bool) -> RowTone {
    if selected {
        RowTone::Selected
    } else if f.queued {
        RowTone::Queued
    } else if f.is_parent {
        RowTone::Parent
    } else if f.is_dir {
        RowTone::Directory
    } else {
        RowTone::Plain
    }
}

/// The text columns of one list row. The megapixel column, a decimal of a
/// floating-point quotient, is left to the caller (`mp_shown` says whether
/// the row has one).
#[derive(Debug)]
pub struct FileRow {
    pub tone: RowTone,
    pub icon: String,
    pub name: String,
    pub dims: String,
    pub size: String,
    pub color: String,
    pub camera: String,
    pub ext: String,
    pub mp_shown: bool,
}

/// The queue marker after a name.
pub open spec fn queue_mark(f: ImageFile) -> Seq<char> {
    if f.queued {
        "[Q]"@
    } else {
        Seq::empty()
    }
}

/// `w`x`h` for known dimensions, empty otherwise.
pub open spec fn dims_cell(d: Option<(u32, u32)>) -> Seq<char> {
    match d {
        Some((w, h)) => decimal(w as nat) + "x"@ + decimal(h as nat),
        None => Seq::empty(),
    }
}

/// The camera model from the metadata, or a dash when there is none.
pub open spec fn camera_cell(f: ImageFile) -> Seq<char> {
    match f.exif_data {
        Some(e) => match e.camera {
            Some(c) => if c@.len() > 0 {
                c@
            } else {
                "—"@
            },
            None => "—"@,
        },
        None => "—"@,
    }
}

/// The columns of a list row for file `f`.
pub open spec fn file_row_spec(f: ImageFile, selected: bool, name_width: nat, exif_width: nat) -> (
    RowTone,
    Seq<Seq<char>>,
    bool,
) {
    if f.is_parent || f.is_dir {
        let name = if f.is_parent {
            ".."@
        } else {
            f.name@ + queue_mark(f)
        };
        (
            row_tone(f, selected),
            seq![
                (if f.is_parent { "<"@ } else { ">"@ }) + "  "@,
                pad_end(name, name_width),
                pad_start(Seq::empty(), 10),
                pad_start(Seq::empty(), 7),
                pad_start(Seq::empty(), 5),
                pad_end(Seq::empty(), exif_width),
                pad_start(Seq::empty(), 4),
            ],
            false,
        )
    } else {
        (
            row_tone(f, selected),
            seq![
                " "@ + "  "@,
                pad_end(truncated(f.name@, utf8_len(f.name@), name_width) + queue_mark(f), name_width),
                pad_start(dims_cell(f.dimensions), 10),
                pad_start(crate::models::size_text(f), 7),
                pad_start(
                    match f.color_type {
                        Some(c) => c@,
                        None => "—"@,
                    },
                    5,
                ),
                pad_end(camera_cell(f), exif_width),
                pad_start(
                    match lower_extension(f.path@) {
                        Some(e) => unicode_uppercase(e),
                        None => Seq::empty(),
                    },
                    4,
                ),
            ],
            f.dimensions is Some,
        )
    }
}

impl FileRow {
    pub open spec fn cells(&self) -> Seq<Seq<char>> {
        seq![self.icon@, self.name@, self.dims@, self.size@, self.color@, self.camera@, self.ext@]
    }
}

fn queue_marked(name: String, f: &ImageFile) -> (s: String)
    ensures
        s@ == name@ + queue_mark(*f),
{
    let mut s = name;
    if f.queued {
        push_all(&mut s, "[Q]");
    }
    proof {
        assert(s@ =~= name@ + queue_mark(*f));
    }
    s
}

/// The columns of one list row.
pub fn file_row(f: &ImageFile, selected: bool, name_width: usize, exif_width: usize) -> (row: FileRow)
    ensures
        (row.tone, row.cells(), row.mp_shown) == file_row_spec(*f, selected, name_width as nat, exif_width as nat),
{
    let tone = if selected {
        RowTone::Selected
    } else if f.queued {
        RowTone::Queued
    } else if f.is_parent {
        RowTone::Parent
    } else if f.is_dir {
        RowTone::Directory
    } else {
        RowTone::Plain
    };
    if f.is_parent || f.is_dir {
        let mut icon = if f.is_parent {
            "<".to_string()
        } else {
            ">".to_string()
        };
        push_all(&mut icon, "  ");
        let name = if f.is_parent {
            "..".to_string()
        } else {
            queue_marked(f.name.clone(), f)
        };
        let row = FileRow {
            tone,
            icon,
            name: pad_right(&name, name_width),
            dims: pad_left("", 10),
            size: pad_left("", 7),
            color: pad_left("", 5),
            camera: pad_right("", exif_width),
            ext: pad_left("", 4),
            mp_shown: false,
        };
        proof {
            assert(""@ =~= Seq::<char>::empty()) by {
                reveal_strlit("");
            }
            assert(row.cells() =~= file_row_spec(*f, selected, name_width as nat, exif_width as nat).1);
        }
        row
    } else {
        let mut icon = " ".to_string();
        push_all(&mut icon, "  ");
        let name = queue_marked(truncate_str(&f.name, name_width), f);
        let dims = match f.dimensions {
            Some((w, h)) => {
                let mut d = String::new();
                push_decimal(&mut d, w as u64);
                push_all(&mut d, "x");
                push_decimal(&mut d, h as u64);
                d
            },
            None => String::new(),
        };
        let color = match &f.color_type {
            Some(c) => c.clone(),
            None => "—".to_string(),
        };
        let camera = match &f.exif_data {
            Some(e) => match &e.camera {
                Some(c) => if !c.as_str().is_empty() {
                    c.clone()
                } else {
                    "—".to_string()
                },
                None => "—".to_string(),
            },
            None => "—".to_string(),
        };
        let ext = match f.extension() {
            Some(e) => to_uppercase(&e),
            None => String::new(),
        };
        let size = f.size_str();
        let row = FileRow {
            tone,
            icon,
            name: pad_right(&name, name_width),
            dims: pad_left(&dims, 10),
            size: pad_left(&size, 7),
            color: pad_left(&color, 5),
            camera: pad_right(&camera, exif_width),
            ext: pad_left(&ext, 4),
            mp_shown: f.dimensions.is_some(),
        };
        proof {
            assert(dims@ =~= dims_cell(f.dimensions));
            assert(row.cells() =~= file_row_spec(*f, selected, name_width as nat, exif_width as nat).1);
        }
        row
    }
}

impl App {
    /// The positions of the list entries on screen: from the scroll offset,
    /// at most the number of visible rows.
    pub fn visible_range(&self) -> (r: (usize, usize))
        ensures
            r.0 == if self.scroll_offset < self.files@.len() {
                self.scroll_offset as int
            } else {
                self.files@.len() as int
            },
            r.1 == if r.0 + self.visible_rows < self.files@.len() {
                r.0 + self.visible_rows
            } else {
                self.files@.len() as int
            },
    {
        let n = self.files.len();
        let start = if self.scroll_offset < n {
            self.scroll_offset
        } else {
            n
        };
        let end = if self.visible_rows < n - start {
            start + self.visible_rows
        } else {
            n
        };
        (start, end)
    }
}

} // verus!
