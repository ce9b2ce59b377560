//! The interface state of the file browser and the decisions it takes on
//! each key press. Everything that touches the disk (listing a directory,
//! reading metadata, compressing) is handed back to the caller as an
//! `Effect`, and its outcome comes back through methods of `App`.
use vstd::prelude::*;
use crate::cache::PathMap;
use crate::models::{CachedImageInfo, ColorSpace, ExifData, ImageFile, ImageSettings, OutputFormat};
use crate::navigation::{down_from, progressive_shown, quality_shown_for, up_from, webp_shown, FocusedColumn, SettingOption};
use crate::paths::{is_absolute_path, joined_path, parent_of};

verus! {

/// The outcome of one file, as kept for the output panel.
#[derive(Clone, Debug)]
pub struct CompressionResult {
    pub file_index: usize,
    pub original_size: u64,
    pub new_size: u64,
    pub output_filename: Option<String>,
    pub error: Option<String>,
}

impl Default for CompressionResult {
    fn default() -> (r: Self)
        ensures
            r.file_index == 0 && r.original_size == 0 && r.new_size == 0 && r.output_filename is None
                && r.error is None,
    {
        CompressionResult { file_index: 0, original_size: 0, new_size: 0, output_filename: None, error: None }
    }
}

/// The keys the interface reacts to.
#[derive(Clone, Copy, Debug, PartialEq, Eq, Structural)]
pub enum Key {
    Char(char),
    Enter,
    Esc,
    Backspace,
    Tab,
    Up,
    Down,
    Left,
    Right,
    PageUp,
    PageDown,
    Home,
    End,
    Null,
    Other,
}

/// Work the caller performs after a key press, in order.
#[derive(Clone, Copy, Debug, PartialEq, Eq, Structural)]
pub enum Effect {
    /// Leave the program.
    Quit,
    /// Tell the compression worker to stop.
    SendCancelled,
    /// Read the camera metadata of this file if it still lacks it.
    LoadExif(usize),
    /// Read camera metadata for up to `count` files from `start` on.
    PreloadExif { start: usize, count: usize },
    /// List the current directory again.
    LoadDirectory,
    /// Start compressing the queue.
    StartCompression,
}

/// The state of the interface as values.
#[verifier::ext_equal]
pub ghost struct AppModel {
    pub current_dir: Seq<char>,
    pub files: Seq<ImageFile>,
    pub selected_index: Option<usize>,
    pub show_settings: bool,
    pub focused_column: FocusedColumn,
    pub setting_option: SettingOption,
    pub queue: Seq<usize>,
    pub default_quality: u8,
    pub global_output_format: Option<OutputFormat>,
    pub global_output_directory: Option<Seq<char>>,
    pub compressing: bool,
    pub compression_cancelled: bool,
    pub progress: Option<(usize, usize, u8, Seq<char>)>,
    pub error_message: Option<Seq<char>>,
    pub success_message: Option<Seq<char>>,
    pub input_mode: bool,
    pub input_buffer: Seq<char>,
    pub input_target: SettingOption,
    pub width_input: Seq<char>,
    pub height_input: Seq<char>,
    pub metadata_cache: Map<Seq<char>, CachedImageInfo>,
    pub exif_cache: Map<Seq<char>, ExifData>,
    pub scroll_offset: usize,
    pub visible_rows: usize,
    pub compression_results: Seq<CompressionResult>,
    pub results_scroll: usize,
    pub show_help: bool,
}

/// The interface state.
pub struct App {
    pub current_dir: String,
    pub files: Vec<ImageFile>,
    pub selected_index: Option<usize>,
    pub show_settings: bool,
    pub focused_column: FocusedColumn,
    pub setting_option: SettingOption,
    pub queue: Vec<usize>,
    pub default_quality: u8,
    pub global_output_format: Option<OutputFormat>,
    pub global_output_directory: Option<String>,
    pub compressing: bool,
    pub compression_cancelled: bool,
    pub progress: Option<(usize, usize, u8, String)>,
    pub error_message: Option<String>,
    pub success_message: Option<String>,
    pub input_mode: bool,
    pub input_buffer: String,
    pub input_target: SettingOption,
    pub width_input: String,
    pub height_input: String,
    pub metadata_cache: PathMap<CachedImageInfo>,
    pub exif_cache: PathMap<ExifData>,
    pub scroll_offset: usize,
    pub visible_rows: usize,
    pub compression_results: Vec<CompressionResult>,
    pub results_scroll: usize,
    pub show_help: bool,
}

pub open spec fn opt_chars(o: Option<String>) -> Option<Seq<char>> {
    match o {
        Some(s) => Some(s@),
        None => None,
    }
}

pub open spec fn progress_view(p: Option<(usize, usize, u8, String)>) -> Option<(usize, usize, u8, Seq<char>)> {
    match p {
        Some((a, b, c, s)) => Some((a, b, c, s@)),
        None => None,
    }
}

/// The most entries a list can hold (the bound on any allocation).
pub open spec fn max_files() -> nat {
    isize::MAX as nat
}

/// The consistency the interface keeps: the selection and the queue point
/// into the file list, and the list is of bounded length.
pub open spec fn model_wf(m: AppModel) -> bool {
    &&& m.files.len() <= max_files()
    &&& match m.selected_index {
        Some(i) => i < m.files.len(),
        None => true,
    }
    &&& forall|k: int| 0 <= k < m.queue.len() ==> #[trigger] m.queue[k] < m.files.len()
}

impl App {
    pub open spec fn model(&self) -> AppModel {
        AppModel {
            current_dir: self.current_dir@,
            files: self.files@,
            selected_index: self.selected_index,
            show_settings: self.show_settings,
            focused_column: self.focused_column,
            setting_option: self.setting_option,
            queue: self.queue@,
            default_quality: self.default_quality,
            global_output_format: self.global_output_format,
            global_output_directory: opt_chars(self.global_output_directory),
            compressing: self.compressing,
            compression_cancelled: self.compression_cancelled,
            progress: progress_view(self.progress),
            error_message: opt_chars(self.error_message),
            success_message: opt_chars(self.success_message),
            input_mode: self.input_mode,
            input_buffer: self.input_buffer@,
            input_target: self.input_target,
            width_input: self.width_input@,
            height_input: self.height_input@,
            metadata_cache: self.metadata_cache.view(),
            exif_cache: self.exif_cache.view(),
            scroll_offset: self.scroll_offset,
            visible_rows: self.visible_rows,
            compression_results: self.compression_results@,
            results_scroll: self.results_scroll,
            show_help: self.show_help,
        }
    }

    pub open spec fn wf(&self) -> bool {
        &&& model_wf(self.model())
        &&& self.metadata_cache.inv()
        &&& self.exif_cache.inv()
    }
}

// ----- value helpers -----

/// `u32::from_str` on a character sequence: an optional leading `+`, then
/// one or more ASCII digits whose value fits in 32 bits.
pub open spec fn parse_u32(s: Seq<char>) -> Option<u32> {
    let d = if s.len() > 0 && s[0] == '+' {
        s.drop_first()
    } else {
        s
    };
    if d.len() > 0 && all_digits(d) && digits_value(d) <= u32::MAX {
        Some(digits_value(d) as u32)
    } else {
        None
    }
}

pub open spec fn is_digit(c: char) -> bool {
    '0' <= c && c <= '9'
}

pub open spec fn all_digits(s: Seq<char>) -> bool {
    forall|i: int| 0 <= i < s.len() ==> #[trigger] is_digit(s[i])
}

/// The number a string of decimal digits denotes.
pub open spec fn digits_value(s: Seq<char>) -> nat
    decreases s.len(),
{
    if s.len() == 0 {
        0
    } else {
        digits_value(s.drop_last()) * 10 + ((s.last() as u32 - '0' as u32) as nat)
    }
}

/// A size limit typed by the user: at most 10000.
pub open spec fn capped(v: u32) -> u32 {
    if v < 10000 {
        v
    } else {
        10000
    }
}

pub open spec fn with_settings(f: ImageFile, s: ImageSettings) -> ImageFile {
    ImageFile { settings: s, ..f }
}

/// The model with the selected file replaced by `f` (unchanged without a selection).
pub open spec fn set_selected(m: AppModel, f: ImageFile) -> AppModel {
    match m.selected_index {
        Some(i) => AppModel { files: m.files.update(i as int, f), ..m },
        None => m,
    }
}

/// The selected file (meaningful only when there is a selection).
pub open spec fn sel(m: AppModel) -> ImageFile {
    m.files[m.selected_index.unwrap() as int]
}

pub open spec fn sel_file(m: AppModel) -> Option<ImageFile> {
    match m.selected_index {
        Some(i) => Some(m.files[i as int]),
        None => None,
    }
}

/// Indices of the queued files, in list order.
pub open spec fn queued_indices(files: Seq<ImageFile>) -> Seq<usize>
    decreases files.len(),
{
    if files.len() == 0 {
        Seq::empty()
    } else {
        queued_indices(files.drop_last()) + if files.last().queued {
            seq![(files.len() - 1) as usize]
        } else {
            Seq::empty()
        }
    }
}

/// Total size of the files at the given indices.
pub open spec fn sizes_of(files: Seq<ImageFile>, idx: Seq<usize>) -> nat
    decreases idx.len(),
{
    if idx.len() == 0 {
        0
    } else {
        sizes_of(files, idx.drop_last()) + files[idx.last() as int].size as nat
    }
}

/// Every index in the queue built from a list points into the list.
pub proof fn lemma_queued_indices_below(files: Seq<ImageFile>)
    ensures
        forall|k: int| 0 <= k < queued_indices(files).len() ==> #[trigger] queued_indices(files)[k] < files.len(),
    decreases files.len(),
{
    if files.len() > 0 {
        lemma_queued_indices_below(files.drop_last());
        let q = queued_indices(files);
        let q0 = queued_indices(files.drop_last());
        assert forall|k: int| 0 <= k < q.len() implies #[trigger] q[k] < files.len() by {
            if k < q0.len() {
                assert(q[k] == q0[k]);
            }
        }
    }
}

// ----- specification of the key handling -----

/// Left on the colour setting.
pub open spec fn color_left(c: ColorSpace) -> ColorSpace {
    match c {
        ColorSpace::Rgba => ColorSpace::Grayscale,
        ColorSpace::Grayscale => ColorSpace::Rgb,
        ColorSpace::Rgb => ColorSpace::Rgba,
    }
}

/// Right on the colour setting.
pub open spec fn color_right(c: ColorSpace) -> ColorSpace {
    match c {
        ColorSpace::Rgb => ColorSpace::Rgba,
        ColorSpace::Grayscale => ColorSpace::Rgb,
        ColorSpace::Rgba => ColorSpace::Grayscale,
    }
}

/// Left on the batch format: None ← JPEG ← PNG ← WebP ← GIF ← TIFF ← BMP ← TGA ← None.
pub open spec fn format_left(f: Option<OutputFormat>) -> Option<OutputFormat> {
    match f {
        None => Some(OutputFormat::Tga),
        Some(OutputFormat::Same) => Some(OutputFormat::Tga),
        Some(OutputFormat::Jpeg) => None,
        Some(OutputFormat::Png) => Some(OutputFormat::Jpeg),
        Some(OutputFormat::Webp) => Some(OutputFormat::Png),
        Some(OutputFormat::Gif) => Some(OutputFormat::Webp),
        Some(OutputFormat::Tiff) => Some(OutputFormat::Gif),
        Some(OutputFormat::Bmp) => Some(OutputFormat::Tiff),
        Some(OutputFormat::Tga) => Some(OutputFormat::Bmp),
    }
}

/// Right on the batch format: None → JPEG → PNG → WebP → GIF → TIFF → BMP → TGA → None.
pub open spec fn format_right(f: Option<OutputFormat>) -> Option<OutputFormat> {
    match f {
        None => Some(OutputFormat::Jpeg),
        Some(OutputFormat::Same) => Some(OutputFormat::Jpeg),
        Some(OutputFormat::Jpeg) => Some(OutputFormat::Png),
        Some(OutputFormat::Png) => Some(OutputFormat::Webp),
        Some(OutputFormat::Webp) => Some(OutputFormat::Gif),
        Some(OutputFormat::Gif) => Some(OutputFormat::Tiff),
        Some(OutputFormat::Tiff) => Some(OutputFormat::Bmp),
        Some(OutputFormat::Bmp) => Some(OutputFormat::Tga),
        Some(OutputFormat::Tga) => None,
    }
}

/// Left on a size limit: 100 less, and no limit once it reaches 0.
pub open spec fn limit_left(v: Option<u32>) -> Option<u32> {
    let cur = match v {
        Some(x) => x,
        None => 0,
    };
    if cur > 100 {
        Some((cur - 100) as u32)
    } else {
        None
    }
}

/// Right on a size limit: 100 to start with, then 100 more up to 10000.
pub open spec fn limit_right(v: Option<u32>) -> Option<u32> {
    let cur = match v {
        Some(x) => x,
        None => 0,
    };
    if cur == 0 {
        Some(100)
    } else if cur + 100 < 10000 {
        Some((cur + 100) as u32)
    } else {
        Some(10000)
    }
}

/// The output directory typed by the user: `~` and `~/...` are taken
/// relative to the home directory (when it is known), absolute paths as
/// they are, and other paths relative to the current directory.
pub open spec fn resolve_output_dir(input: Seq<char>, home: Option<Seq<char>>, current_dir: Seq<char>) -> Seq<char> {
    if input.len() > 0 && input[0] == '~' {
        let rest = input.drop_first();
        match home {
            Some(h) => if rest.len() == 0 {
                h
            } else if rest[0] == '/' {
                joined_path(h, input.skip(2))
            } else {
                joined_path(h, rest)
            },
            None => input,
        }
    } else if is_absolute_path(input) {
        input
    } else {
        joined_path(current_dir, input)
    }
}

/// The typed size limits applied to the selected file, then cleared.
pub open spec fn commit_step(m: AppModel) -> AppModel {
    let wv = if m.width_input.len() > 0 {
        match parse_u32(m.width_input) {
            Some(v) => Some(capped(v)),
            None => None,
        }
    } else {
        None
    };
    let hv = if m.height_input.len() > 0 {
        match parse_u32(m.height_input) {
            Some(v) => Some(capped(v)),
            None => None,
        }
    } else {
        None
    };
    let m1 = match m.selected_index {
        Some(i) => {
            let f = m.files[i as int];
            let s1 = match wv {
                Some(v) => ImageSettings { max_width: Some(v), ..f.settings },
                None => f.settings,
            };
            let s2 = match hv {
                Some(v) => ImageSettings { max_height: Some(v), ..s1 },
                None => s1,
            };
            set_selected(m, with_settings(f, s2))
        },
        None => m,
    };
    AppModel { width_input: Seq::empty(), height_input: Seq::empty(), ..m1 }
}

/// The size limit typed into the text entry applied to the selected file:
/// an empty entry removes the limit, a number sets it (at most 10000), and
/// anything else leaves it.
pub open spec fn typed_limit_step(m: AppModel) -> AppModel {
    let f = sel(m);
    let input = m.input_buffer;
    let v = if input.len() == 0 {
        Some(None)
    } else {
        match parse_u32(input) {
            Some(x) => Some(Some(capped(x))),
            None => None,
        }
    };
    match v {
        Some(val) => if m.input_target == SettingOption::MaxWidth {
            set_selected(m, with_settings(f, ImageSettings { max_width: val, ..f.settings }))
        } else {
            set_selected(m, with_settings(f, ImageSettings { max_height: val, ..f.settings }))
        },
        None => m,
    }
}

/// Enter in the text entry: the typed output directory or size limit is
/// applied, and the entry closes.
pub open spec fn input_enter_step(m: AppModel, home: Option<Seq<char>>) -> AppModel {
    let input = m.input_buffer;
    let m1 = if m.input_target == SettingOption::OutputDir && input.len() > 0 {
        AppModel { global_output_directory: Some(resolve_output_dir(input, home, m.current_dir)), ..m }
    } else if (m.input_target == SettingOption::MaxWidth || m.input_target == SettingOption::MaxHeight)
        && m.selected_index is Some {
        typed_limit_step(m)
    } else {
        m
    };
    AppModel { input_mode: false, input_buffer: Seq::empty(), ..m1 }
}

/// A key typed while a text entry is open.
pub open spec fn input_step(m: AppModel, key: Key, home: Option<Seq<char>>) -> AppModel {
    match key {
        Key::Enter => input_enter_step(m, home),
        Key::Esc => AppModel { input_mode: false, input_buffer: Seq::empty(), ..m },
        Key::Backspace => AppModel {
            input_buffer: if m.input_buffer.len() > 0 {
                m.input_buffer.drop_last()
            } else {
                m.input_buffer
            },
            ..m
        },
        Key::Char(c) => if m.input_target == SettingOption::OutputDir || is_digit(c) {
            AppModel { input_buffer: m.input_buffer.push(c), ..m }
        } else {
            m
        },
        _ => m,
    }
}

/// The size-entry handling of the settings panel, before the general keys:
/// the model after it, and whether the key was used up.
pub open spec fn settings_pre_step(m: AppModel, key: Key) -> (AppModel, bool) {
    if m.focused_column == FocusedColumn::ImageSettings {
        match key {
            Key::Char(c) => if is_digit(c) {
                (
                    if m.setting_option == SettingOption::MaxWidth {
                        AppModel { width_input: m.width_input.push(c), ..m }
                    } else if m.setting_option == SettingOption::MaxHeight {
                        AppModel { height_input: m.height_input.push(c), ..m }
                    } else {
                        m
                    },
                    true,
                )
            } else {
                (m, false)
            },
            Key::Backspace => (
                if m.setting_option == SettingOption::MaxWidth {
                    AppModel {
                        width_input: if m.width_input.len() > 0 {
                            m.width_input.drop_last()
                        } else {
                            m.width_input
                        },
                        ..m
                    }
                } else if m.setting_option == SettingOption::MaxHeight {
                    AppModel {
                        height_input: if m.height_input.len() > 0 {
                            m.height_input.drop_last()
                        } else {
                            m.height_input
                        },
                        ..m
                    }
                } else {
                    m
                },
                true,
            ),
            Key::Tab | Key::Up | Key::Down | Key::Left | Key::Right | Key::Enter => (commit_step(m), false),
            _ => (m, false),
        }
    } else {
        (m, false)
    }
}

/// Quality, shown flags for the settings navigation in a model.
pub open spec fn nav_q(m: AppModel) -> bool {
    quality_shown_for(m.global_output_format, sel_file(m))
}

/// Selecting list entry `i` and asking for its metadata and its neighbours'.
pub open spec fn select_effects(i: usize, preload_from: usize) -> Seq<Effect> {
    seq![Effect::LoadExif(i), Effect::PreloadExif { start: preload_from, count: 10 }]
}

/// Up (or `k`).
pub open spec fn up_step(m: AppModel) -> (AppModel, Seq<Effect>) {
    if m.focused_column == FocusedColumn::Files {
        match m.selected_index {
            Some(idx) => if idx > 0 {
                (
                    AppModel {
                        selected_index: Some((idx - 1) as usize),
                        scroll_offset: if idx <= m.scroll_offset {
                            m.scroll_offset.saturating_sub(1)
                        } else {
                            m.scroll_offset
                        },
                        ..m
                    },
                    select_effects((idx - 1) as usize, idx.saturating_sub(5)),
                )
            } else {
                (m, Seq::empty())
            },
            None => (m, Seq::empty()),
        }
    } else if m.focused_column == FocusedColumn::Output {
        (
            AppModel {
                results_scroll: if m.results_scroll > 0 {
                    (m.results_scroll - 1) as usize
                } else {
                    m.results_scroll
                },
                ..m
            },
            Seq::empty(),
        )
    } else {
        (
            AppModel {
                setting_option: up_from(
                    m.setting_option,
                    nav_q(m),
                    webp_shown(m.global_output_format),
                    progressive_shown(m.global_output_format),
                ),
                ..m
            },
            Seq::empty(),
        )
    }
}

/// Down (or `j`).
pub open spec fn down_step(m: AppModel) -> (AppModel, Seq<Effect>) {
    if m.focused_column == FocusedColumn::Files {
        match m.selected_index {
            Some(idx) => if idx + 1 < m.files.len() {
                (
                    AppModel {
                        selected_index: Some((idx + 1) as usize),
                        scroll_offset: if idx >= m.scroll_offset + m.visible_rows - 1 {
                            ((idx + 1) as usize).saturating_sub((m.visible_rows - 1) as usize)
                        } else {
                            m.scroll_offset
                        },
                        ..m
                    },
                    select_effects((idx + 1) as usize, (idx + 1) as usize),
                )
            } else {
                (m, Seq::empty())
            },
            None => (m, Seq::empty()),
        }
    } else if m.focused_column == FocusedColumn::Output {
        let max_scroll = m.compression_results.len() as usize;
        let max_scroll = max_scroll.saturating_sub(1);
        (
            AppModel {
                results_scroll: if m.results_scroll < max_scroll {
                    (m.results_scroll + 1) as usize
                } else {
                    m.results_scroll
                },
                ..m
            },
            Seq::empty(),
        )
    } else {
        (
            AppModel {
                setting_option: down_from(
                    m.setting_option,
                    nav_q(m),
                    webp_shown(m.global_output_format),
                    progressive_shown(m.global_output_format),
                ),
                ..m
            },
            Seq::empty(),
        )
    }
}

pub open spec fn sel_or_zero(m: AppModel) -> usize {
    match m.selected_index {
        Some(i) => i,
        None => 0,
    }
}

pub open spec fn min_usize(a: usize, b: usize) -> usize {
    if a < b {
        a
    } else {
        b
    }
}

/// Page Up in the file list.
pub open spec fn page_up_step(m: AppModel) -> (AppModel, Seq<Effect>) {
    let new_idx = sel_or_zero(m).saturating_sub(m.visible_rows);
    (
        AppModel {
            selected_index: Some(new_idx),
            scroll_offset: m.scroll_offset.saturating_sub(m.visible_rows),
            ..m
        },
        select_effects(new_idx, new_idx),
    )
}

/// Page Down in the file list.
pub open spec fn page_down_step(m: AppModel) -> (AppModel, Seq<Effect>) {
    let max_idx = (m.files.len() - 1) as usize;
    let new_idx = min_usize((sel_or_zero(m) + m.visible_rows) as usize, max_idx);
    (
        AppModel {
            selected_index: Some(new_idx),
            scroll_offset: min_usize(
                (m.scroll_offset + m.visible_rows) as usize,
                max_idx.saturating_sub((m.visible_rows - 1) as usize),
            ),
            ..m
        },
        select_effects(new_idx, new_idx),
    )
}

/// Home in the file list.
pub open spec fn home_step(m: AppModel) -> (AppModel, Seq<Effect>) {
    (AppModel { selected_index: Some(0), scroll_offset: 0, ..m }, select_effects(0, 0))
}

/// End in the file list.
pub open spec fn end_step(m: AppModel) -> (AppModel, Seq<Effect>) {
    let max_idx = (m.files.len() - 1) as usize;
    (
        AppModel {
            selected_index: Some(max_idx),
            scroll_offset: max_idx.saturating_sub((m.visible_rows - 1) as usize),
            ..m
        },
        select_effects(max_idx, max_idx),
    )
}

/// Opening the text entry for the output directory.
pub open spec fn open_dir_entry(m: AppModel) -> AppModel {
    AppModel { input_mode: true, input_target: SettingOption::OutputDir, input_buffer: Seq::empty(), ..m }
}

/// The selected file's settings changed by `s` (nothing without a selection).
pub open spec fn set_sel_settings(m: AppModel, s: ImageSettings) -> AppModel {
    match m.selected_index {
        Some(i) => set_selected(m, with_settings(m.files[i as int], s)),
        None => m,
    }
}

/// A file's settings after Left on entry `o`.
pub open spec fn left_settings(o: SettingOption, st: ImageSettings) -> ImageSettings {
    match o {
        SettingOption::Quality => ImageSettings { quality: st.quality.saturating_sub(5), ..st },
        SettingOption::Color => ImageSettings { color_space: color_left(st.color_space), ..st },
        SettingOption::Exif => ImageSettings { remove_exif: !st.remove_exif, ..st },
        SettingOption::Progressive => ImageSettings { progressive: !st.progressive, ..st },
        SettingOption::PngCompress => ImageSettings { png_compression: st.png_compression.saturating_sub(1), ..st },
        SettingOption::MaxWidth => ImageSettings { max_width: limit_left(st.max_width), ..st },
        SettingOption::MaxHeight => ImageSettings { max_height: limit_left(st.max_height), ..st },
        SettingOption::WebpLossless => ImageSettings { webp_lossless: !st.webp_lossless, ..st },
        SettingOption::Overwrite => ImageSettings { overwrite: !st.overwrite, ..st },
        SettingOption::Backup => ImageSettings { backup: !st.backup, ..st },
        _ => st,
    }
}

/// Left on the settings panel: the batch format and the output directory
/// entry are global, quality also lowers the default, the rest change the
/// selected file.
pub open spec fn left_step(m: AppModel) -> AppModel {
    match m.setting_option {
        SettingOption::Format => AppModel { global_output_format: format_left(m.global_output_format), ..m },
        SettingOption::OutputDir => open_dir_entry(m),
        SettingOption::Quality => {
            let m1 = set_sel_settings(m, left_settings(m.setting_option, sel(m).settings));
            AppModel { default_quality: m.default_quality.saturating_sub(5), ..m1 }
        },
        _ => set_sel_settings(m, left_settings(m.setting_option, sel(m).settings)),
    }
}

pub open spec fn up_to_100(q: u8) -> u8 {
    if q + 5 < 100 {
        (q + 5) as u8
    } else {
        100
    }
}

/// A file's settings after Right on entry `o`.
pub open spec fn right_settings(o: SettingOption, st: ImageSettings) -> ImageSettings {
    match o {
        SettingOption::Quality => ImageSettings { quality: up_to_100(st.quality), ..st },
        SettingOption::Color => ImageSettings { color_space: color_right(st.color_space), ..st },
        SettingOption::Exif => ImageSettings { remove_exif: !st.remove_exif, ..st },
        SettingOption::Progressive => ImageSettings { progressive: !st.progressive, ..st },
        SettingOption::PngCompress => ImageSettings {
            png_compression: if st.png_compression + 1 < 9 {
                (st.png_compression + 1) as u8
            } else {
                9
            },
            ..st
        },
        SettingOption::MaxWidth => ImageSettings { max_width: limit_right(st.max_width), ..st },
        SettingOption::MaxHeight => ImageSettings { max_height: limit_right(st.max_height), ..st },
        SettingOption::WebpLossless => ImageSettings { webp_lossless: !st.webp_lossless, ..st },
        SettingOption::Overwrite => ImageSettings { overwrite: !st.overwrite, ..st },
        SettingOption::Backup => ImageSettings { backup: !st.backup, ..st },
        _ => st,
    }
}

/// Right on the settings panel.
pub open spec fn right_step(m: AppModel) -> AppModel {
    match m.setting_option {
        SettingOption::Format => AppModel { global_output_format: format_right(m.global_output_format), ..m },
        SettingOption::OutputDir => open_dir_entry(m),
        SettingOption::Quality => {
            let m1 = set_sel_settings(m, right_settings(m.setting_option, sel(m).settings));
            AppModel { default_quality: up_to_100(m.default_quality), ..m1 }
        },
        _ => set_sel_settings(m, right_settings(m.setting_option, sel(m).settings)),
    }
}

/// Going to the parent directory, if the current one has a parent.
pub open spec fn navigate_up_step(m: AppModel) -> (AppModel, Seq<Effect>) {
    match parent_of(m.current_dir) {
        Some(p) => (AppModel { current_dir: p, ..m }, seq![Effect::LoadDirectory]),
        None => (m, Seq::empty()),
    }
}

/// Opening the selected entry: the parent link goes up, a directory is entered.
pub open spec fn enter_directory_step(m: AppModel) -> (AppModel, Seq<Effect>) {
    match m.selected_index {
        Some(i) => if m.files[i as int].is_parent {
            navigate_up_step(m)
        } else if m.files[i as int].is_dir {
            (AppModel { current_dir: m.files[i as int].path@, ..m }, seq![Effect::LoadDirectory])
        } else {
            (m, Seq::empty())
        },
        None => (m, Seq::empty()),
    }
}

/// Space: the selected file goes into or out of the queue; the queue then
/// lists the queued files in order, and adding a file clears old results.
pub open spec fn toggle_queue_step(m: AppModel) -> AppModel {
    match m.selected_index {
        Some(i) => {
            let f = m.files[i as int];
            let nf = ImageFile { queued: !f.queued, ..f };
            let files = m.files.update(i as int, nf);
            AppModel {
                files,
                queue: queued_indices(files),
                compression_results: if nf.queued {
                    Seq::empty()
                } else {
                    m.compression_results
                },
                results_scroll: if nf.queued {
                    0
                } else {
                    m.results_scroll
                },
                ..m
            }
        },
        None => m,
    }
}

/// `C`: every file in the queue is taken out and results are cleared.
pub open spec fn clear_queue_step(m: AppModel) -> AppModel {
    AppModel {
        files: Seq::new(
            m.files.len(),
            |j: int|
                if m.queue.contains(j as usize) {
                    ImageFile { queued: false, ..m.files[j] }
                } else {
                    m.files[j]
                },
        ),
        queue: Seq::empty(),
        compression_results: Seq::empty(),
        results_scroll: 0,
        ..m
    }
}

/// The general keys, after the settings panel's size entry.
pub open spec fn main_step(m: AppModel, key: Key) -> (AppModel, Seq<Effect>) {
    let files_focus = m.focused_column == FocusedColumn::Files;
    let nonempty = m.files.len() > 0;
    if key == Key::Char('?') {
        (AppModel { show_help: !m.show_help, ..m }, Seq::empty())
    } else if key == Key::Tab && m.show_settings {
        (
            AppModel {
                focused_column: match m.focused_column {
                    FocusedColumn::Files => FocusedColumn::ImageSettings,
                    FocusedColumn::ImageSettings => FocusedColumn::Output,
                    FocusedColumn::Output => FocusedColumn::Files,
                },
                ..m
            },
            Seq::empty(),
        )
    } else if key == Key::Up || key == Key::Char('k') {
        up_step(m)
    } else if key == Key::Down || key == Key::Char('j') {
        down_step(m)
    } else if key == Key::PageUp && files_focus && nonempty {
        page_up_step(m)
    } else if key == Key::PageDown && files_focus && nonempty {
        page_down_step(m)
    } else if key == Key::Home && files_focus && nonempty {
        home_step(m)
    } else if key == Key::End && files_focus && nonempty {
        end_step(m)
    } else if key == Key::Left && m.focused_column == FocusedColumn::ImageSettings {
        (left_step(m), Seq::empty())
    } else if key == Key::Right && m.focused_column == FocusedColumn::ImageSettings {
        (right_step(m), Seq::empty())
    } else if key == Key::Enter && files_focus {
        enter_directory_step(m)
    } else if key == Key::Backspace && files_focus {
        navigate_up_step(m)
    } else if key == Key::Char(' ') && files_focus {
        (toggle_queue_step(m), Seq::empty())
    } else if key == Key::Char('c') && m.queue.len() > 0 && !m.compressing {
        (m, seq![Effect::StartCompression])
    } else if key == Key::Char('C') {
        (clear_queue_step(m), Seq::empty())
    } else if key == Key::Char('q') || key == Key::Esc {
        if m.compressing {
            (AppModel { compression_cancelled: true, ..m }, Seq::empty())
        } else {
            (m, seq![Effect::Quit])
        }
    } else {
        (m, Seq::empty())
    }
}

/// Whether a key stops a running compression.
pub open spec fn is_cancel_key(key: Key) -> bool {
    key == Key::Esc || key == Key::Char('q') || key == Key::Char('Q')
}

/// What a key press does: the next state and the work handed to the caller.
/// `home` is the home directory used to expand `~` in a typed output directory.
pub open spec fn key_step(m: AppModel, key: Key, home: Option<Seq<char>>) -> (AppModel, Seq<Effect>) {
    if m.show_help {
        (AppModel { show_help: key == Key::Null, ..m }, Seq::empty())
    } else if m.compressing {
        if is_cancel_key(key) {
            (AppModel { compression_cancelled: true, ..m }, seq![Effect::SendCancelled])
        } else {
            (m, Seq::empty())
        }
    } else if m.input_mode {
        (input_step(m, key, home), Seq::empty())
    } else {
        let (m1, used) = settings_pre_step(m, key);
        if used {
            (m1, Seq::empty())
        } else {
            main_step(m1, key)
        }
    }
}

/// The key presses the interface handles without an arithmetic fault: the
/// list movements that need at least one visible row and sums that fit, the
/// and the increments on the settings panel that fit their types.
pub open spec fn key_defined(m: AppModel, key: Key, home: Option<Seq<char>>) -> bool {
    if m.show_help || m.compressing {
        true
    } else if m.input_mode {
        true
    } else {
        let (m1, used) = settings_pre_step(m, key);
        used || main_defined(m1, key)
    }
}

pub open spec fn main_defined(m: AppModel, key: Key) -> bool {
    let files_focus = m.focused_column == FocusedColumn::Files;
    let nonempty = m.files.len() > 0;
    if key == Key::Char('?') || (key == Key::Tab && m.show_settings) || key == Key::Up || key
        == Key::Char('k') {
        true
    } else if key == Key::Down || key == Key::Char('j') {
        files_focus && m.selected_index is Some && m.selected_index.unwrap() + 1 < m.files.len()
            ==> (m.scroll_offset + m.visible_rows <= usize::MAX && m.scroll_offset + m.visible_rows
            >= 1 && (m.selected_index.unwrap() >= m.scroll_offset + m.visible_rows - 1
            ==> m.visible_rows >= 1))
    } else if key == Key::PageUp && files_focus && nonempty {
        true
    } else if key == Key::PageDown && files_focus && nonempty {
        sel_or_zero(m) + m.visible_rows <= usize::MAX && m.scroll_offset + m.visible_rows
            <= usize::MAX && m.visible_rows >= 1
    } else if key == Key::Home && files_focus && nonempty {
        true
    } else if key == Key::End && files_focus && nonempty {
        m.visible_rows >= 1
    } else if key == Key::Left && m.focused_column == FocusedColumn::ImageSettings {
        true
    } else if key == Key::Right && m.focused_column == FocusedColumn::ImageSettings {
        let st = sel(m).settings;
        match m.setting_option {
            SettingOption::Quality => m.default_quality + 5 <= 255 && (m.selected_index is Some
                ==> st.quality + 5 <= 255),
            SettingOption::PngCompress => m.selected_index is Some ==> st.png_compression + 1 <= 255,
            SettingOption::MaxWidth => m.selected_index is Some ==> match st.max_width {
                Some(v) => v + 100 <= u32::MAX,
                None => true,
            },
            SettingOption::MaxHeight => m.selected_index is Some ==> match st.max_height {
                Some(v) => v + 100 <= u32::MAX,
                None => true,
            },
            _ => true,
        }
    } else {
        true
    }
}

} // verus!
