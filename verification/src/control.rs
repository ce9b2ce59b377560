//! The key handling of the interface, checked against the model in `state`.
use vstd::prelude::*;
use crate::cache::PathMap;
use crate::models::{lower_extension, CachedImageInfo, ColorSpace, ExifData, ImageFile, ImageSettings, OutputFormat};
use crate::navigation::{next_setting_down, next_setting_up, FocusedColumn, SettingOption};
use crate::paths::{is_absolute, path_extension, path_join, path_parent};
use crate::state::{all_digits, clear_queue_step, commit_step, digits_value, down_step, end_step, enter_directory_step, home_step, input_enter_step, input_step, typed_limit_step, is_digit, key_defined, key_step, left_step, main_defined, main_step, model_wf, navigate_up_step, page_down_step, page_up_step, parse_u32, queued_indices, sel_file, with_settings, color_left, color_right, format_left, format_right, left_settings, limit_left, limit_right, open_dir_entry, right_settings, sel, set_sel_settings, sizes_of, resolve_output_dir, right_step, settings_pre_step, toggle_queue_step, up_step, App, AppModel, Effect, Key};
use crate::text::{chars_of, pop_char, push_char, str_eq, string_of_range, to_lowercase};

verus! {

pub open spec fn opt_str(o: Option<&str>) -> Option<Seq<char>> {
    match o {
        Some(s) => Some(s@),
        None => None,
    }
}

proof fn lemma_digits_prefix(s: Seq<char>, k: int)
    requires
        0 <= k <= s.len(),
        all_digits(s),
    ensures
        digits_value(s.take(k)) <= digits_value(s),
    decreases s.len(),
{
    if k < s.len() {
        assert(s.drop_last().take(k) == s.take(k));
        assert(all_digits(s.drop_last())) by {
            assert forall|i: int| 0 <= i < s.drop_last().len() implies #[trigger] is_digit(
                s.drop_last()[i],
            ) by {
                assert(is_digit(s[i]));
            }
        }
        lemma_digits_prefix(s.drop_last(), k);
    } else {
        assert(s.take(k) == s);
    }
}

/// `u32::from_str` on a string.
pub fn parse_u32_str(s: &str) -> (r: Option<u32>)
    ensures
        r == parse_u32(s@),
{
    let v = chars_of(s);
    let start: usize = if v.len() > 0 && v[0] == '+' {
        1
    } else {
        0
    };
    let ghost d = if s@.len() > 0 && s@[0] == '+' {
        s@.drop_first()
    } else {
        s@
    };
    proof {
        assert(d == v@.skip(start as int));
    }
    if start == v.len() {
        return None;
    }
    let mut acc: u64 = 0;
    let mut i: usize = start;
    while i < v.len()
        invariant
            start <= i <= v.len(),
            v@ == s@,
            d == v@.skip(start as int),
            all_digits(d.take(i - start)),
            acc as nat == digits_value(d.take(i - start)),
            acc <= u32::MAX,
            d == (if s@.len() > 0 && s@[0] == '+' {
                s@.drop_first()
            } else {
                s@
            }),
        decreases v.len() - i,
    {
        let c = v[i];
        if !('0' <= c && c <= '9') {
            proof {
                assert(d[i - start] == c);
                assert(!is_digit(d[i - start]));
                assert(!all_digits(d));
            }
            return None;
        }
        let dv = (c as u32 - '0' as u32) as u64;
        proof {
            assert(d.take(i + 1 - start).drop_last() == d.take(i - start));
            assert(d.take(i + 1 - start).last() == c);
            assert(all_digits(d.take(i + 1 - start))) by {
                assert forall|j: int| 0 <= j < d.take(i + 1 - start).len() implies #[trigger] is_digit(
                    d.take(i + 1 - start)[j],
                ) by {
                    if j < i - start {
                        assert(d.take(i + 1 - start)[j] == d.take(i - start)[j]);
                    }
                }
            }
        }
        acc = acc * 10 + dv;
        i = i + 1;
        proof {
            assert(acc as nat == digits_value(d.take(i - start)));
        }
        if acc > 0xFFFF_FFFF {
            proof {
                if all_digits(d) {
                    lemma_digits_prefix(d, i - start);
                }
            }
            return None;
        }
    }
    proof {
        assert(d.take(v.len() - start) == d);
    }
    Some(acc as u32)
}

impl App {
    /// The selected list entry.
    pub fn selected_file(&self) -> (r: Option<&ImageFile>)
        requires
            self.wf(),
        ensures
            match r {
                Some(f) => self.selected_index is Some && *f == self.files@[self.selected_index.unwrap() as int],
                None => self.selected_index is None,
            },
            crate::navigation::opt_file(r) == sel_file(self.model()),
    {
        match self.selected_index {
            Some(i) => Some(&self.files[i]),
            None => None,
        }
    }

    /// Applies the typed size limits to the selected file and clears them.
    /// Applies the typed size limits to the selected file and clears them.
    pub fn commit_size_inputs(&mut self)
        requires
            old(self).wf(),
        ensures
            final(self).wf(),
            final(self).model() == commit_step(old(self).model()),
    {
        let width_val = typed_limit(&self.width_input);
        let height_val = typed_limit(&self.height_input);
        let ghost m = old(self).model();
        if let Some(i) = self.selected_index {
            set_limits(&mut self.files, i, width_val, height_val);
        }
        self.width_input = String::new();
        self.height_input = String::new();
        proof {
            assert(self.width_input@ =~= Seq::<char>::empty());
            assert(self.height_input@ =~= Seq::<char>::empty());
            assert(self.model() =~= commit_step(m));
        }
    }
}

/// The limit typed in a size field, capped at 10000; none when the field is
/// empty or does not hold a number.
pub open spec fn typed_limit_spec(s: Seq<char>) -> Option<u32> {
    if s.len() > 0 {
        match parse_u32(s) {
            Some(v) => Some(if v < 10000 {
                v
            } else {
                10000
            }),
            None => None,
        }
    } else {
        None
    }
}

fn typed_limit(s: &String) -> (r: Option<u32>)
    ensures
        r == typed_limit_spec(s@),
{
    if !s.as_str().is_empty() {
        match parse_u32_str(s.as_str()) {
            Some(v) => Some(if v < 10000 {
                v
            } else {
                10000
            }),
            None => None,
        }
    } else {
        None
    }
}

fn set_limits(files: &mut Vec<ImageFile>, i: usize, w: Option<u32>, h: Option<u32>)
    requires
        i < old(files).len(),
    ensures
        final(files)@ == old(files)@.update(
            i as int,
            ImageFile {
                settings: crate::models::ImageSettings {
                    max_width: match w {
                        Some(v) => Some(v),
                        None => old(files)@[i as int].settings.max_width,
                    },
                    max_height: match h {
                        Some(v) => Some(v),
                        None => old(files)@[i as int].settings.max_height,
                    },
                    ..old(files)@[i as int].settings
                },
                ..old(files)@[i as int]
            },
        ),
{
    if let Some(val) = w {
        files[i].settings.max_width = Some(val);
    }
    if let Some(val) = h {
        files[i].settings.max_height = Some(val);
    }
    proof {
        assert(files@ =~= old(files)@.update(
            i as int,
            ImageFile {
                settings: crate::models::ImageSettings {
                    max_width: match w {
                        Some(v) => Some(v),
                        None => old(files)@[i as int].settings.max_width,
                    },
                    max_height: match h {
                        Some(v) => Some(v),
                        None => old(files)@[i as int].settings.max_height,
                    },
                    ..old(files)@[i as int].settings
                },
                ..old(files)@[i as int]
            },
        ));
    }
}

fn set_settings(files: &mut Vec<ImageFile>, i: usize, st: ImageSettings)
    requires
        i < old(files).len(),
    ensures
        final(files)@ == old(files)@.update(i as int, with_settings(old(files)@[i as int], st)),
{
    files[i].settings = st;
    proof {
        assert(files@ =~= old(files)@.update(i as int, with_settings(old(files)@[i as int], st)));
    }
}

fn set_queued(files: &mut Vec<ImageFile>, i: usize, b: bool)
    requires
        i < old(files).len(),
    ensures
        final(files)@ == old(files)@.update(i as int, ImageFile { queued: b, ..old(files)@[i as int] }),
{
    files[i].queued = b;
    proof {
        assert(files@ =~= old(files)@.update(i as int, ImageFile { queued: b, ..old(files)@[i as int] }));
    }
}

/// The output directory typed by the user, resolved against the home and
/// current directories.
pub fn resolve_output_directory(input: &str, home: Option<&str>, current_dir: &str) -> (r: String)
    ensures
        r@ == resolve_output_dir(input@, opt_str(home), current_dir@),
{
    let v = chars_of(input);
    if v.len() > 0 && v[0] == '~' {
        match home {
            Some(h) => {
                if v.len() == 1 {
                    h.to_owned()
                } else if v[1] == '/' {
                    proof {
                        assert(v@.subrange(2, v.len() as int) == input@.skip(2));
                    }
                    let rest = string_of_range(&v, 2, v.len());
                    path_join(h, &rest)
                } else {
                    proof {
                        assert(v@.subrange(1, v.len() as int) == input@.drop_first());
                    }
                    let rest = string_of_range(&v, 1, v.len());
                    path_join(h, &rest)
                }
            },
            None => input.to_owned(),
        }
    } else if is_absolute(input) {
        input.to_owned()
    } else {
        path_join(current_dir, input)
    }
}

impl App {
    /// Applies the size limit typed into the text entry to the selected file.
    fn apply_typed_limit(&mut self)
        requires
            old(self).wf(),
            old(self).selected_index is Some,
        ensures
            final(self).wf(),
            final(self).model() == typed_limit_step(old(self).model()),
    {
        let ghost m = old(self).model();
        let i = self.selected_index.unwrap();
        let val: Option<Option<u32>> = if self.input_buffer.as_str().is_empty() {
            Some(None)
        } else {
            match parse_u32_str(self.input_buffer.as_str()) {
                Some(x) => Some(Some(if x < 10000 {
                    x
                } else {
                    10000
                })),
                None => None,
            }
        };
        if let Some(v) = val {
            let mut st = self.files[i].settings.copied();
            if self.input_target == SettingOption::MaxWidth {
                st.max_width = v;
            } else {
                st.max_height = v;
            }
            set_settings(&mut self.files, i, st);
        }
        proof {
            assert(self.model() =~= typed_limit_step(m));
        }
    }

    /// Enter in the text entry.
    fn input_enter(&mut self, home: Option<&str>)
        requires
            old(self).wf(),
        ensures
            final(self).wf(),
            final(self).model() == input_enter_step(old(self).model(), opt_str(home)),
    {
        let ghost m = old(self).model();
        if self.input_target == SettingOption::OutputDir && !self.input_buffer.as_str().is_empty() {
            let dir = resolve_output_directory(self.input_buffer.as_str(), home, self.current_dir.as_str());
            self.global_output_directory = Some(dir);
        } else if (self.input_target == SettingOption::MaxWidth || self.input_target
            == SettingOption::MaxHeight) && self.selected_index.is_some() {
            self.apply_typed_limit();
        }
        self.input_mode = false;
        self.input_buffer = String::new();
        proof {
            assert(self.input_buffer@ =~= Seq::<char>::empty());
            assert(self.model() =~= input_enter_step(m, opt_str(home)));
        }
    }

    /// A key typed while the text entry is open.
    fn input_key(&mut self, key: Key, home: Option<&str>)
        requires
            old(self).wf(),
            old(self).input_mode,
            !old(self).show_help,
            !old(self).compressing,
            key_defined(old(self).model(), key, opt_str(home)),
        ensures
            final(self).wf(),
            final(self).model() == input_step(old(self).model(), key, opt_str(home)),
    {
        let ghost m = old(self).model();
        match key {
            Key::Enter => {
                self.input_enter(home);
            },
            Key::Esc => {
                self.input_mode = false;
                self.input_buffer = String::new();
                proof {
                    assert(self.input_buffer@ =~= Seq::<char>::empty());
                }
            },
            Key::Backspace => {
                pop_char(&mut self.input_buffer);
            },
            Key::Char(c) => {
                if self.input_target == SettingOption::OutputDir || ('0' <= c && c <= '9') {
                    push_char(&mut self.input_buffer, c);
                }
            },
            _ => {},
        }
        proof {
            assert(self.model() =~= input_step(m, key, opt_str(home)));
        }
    }

    /// Up in the file list, the results, or the settings panel.
    fn up_key(&mut self) -> (eff: Vec<Effect>)
        requires
            old(self).wf(),
        ensures
            final(self).wf(),
            (final(self).model(), eff@) == up_step(old(self).model()),
    {
        let ghost m = old(self).model();
        let mut eff: Vec<Effect> = Vec::new();
        if self.focused_column == FocusedColumn::Files {
            if let Some(idx) = self.selected_index {
                if idx > 0 {
                    self.selected_index = Some(idx - 1);
                    eff.push(Effect::LoadExif(idx - 1));
                    eff.push(Effect::PreloadExif { start: idx.saturating_sub(5), count: 10 });
                    if idx <= self.scroll_offset {
                        self.scroll_offset = self.scroll_offset.saturating_sub(1);
                    }
                }
            }
        } else if self.focused_column == FocusedColumn::Output {
            if self.results_scroll > 0 {
                self.results_scroll = self.results_scroll - 1;
            }
        } else {
            let next = next_setting_up(self.setting_option, self.global_output_format, self.selected_file());
            self.setting_option = next;
        }
        proof {
            assert(self.model() =~= up_step(m).0);
            assert(eff@ =~= up_step(m).1);
        }
        eff
    }

    /// Down in the file list, the results, or the settings panel.
    fn down_key(&mut self) -> (eff: Vec<Effect>)
        requires
            old(self).wf(),
            main_defined(old(self).model(), Key::Down),
        ensures
            final(self).wf(),
            (final(self).model(), eff@) == down_step(old(self).model()),
    {
        let ghost m = old(self).model();
        let mut eff: Vec<Effect> = Vec::new();
        if self.focused_column == FocusedColumn::Files {
            if let Some(idx) = self.selected_index {
                if idx + 1 < self.files.len() {
                    self.selected_index = Some(idx + 1);
                    eff.push(Effect::LoadExif(idx + 1));
                    eff.push(Effect::PreloadExif { start: idx + 1, count: 10 });
                    if idx >= self.scroll_offset + self.visible_rows - 1 {
                        self.scroll_offset = (idx + 1).saturating_sub(self.visible_rows - 1);
                    }
                }
            }
        } else if self.focused_column == FocusedColumn::Output {
            let max_scroll = self.compression_results.len().saturating_sub(1);
            if self.results_scroll < max_scroll {
                self.results_scroll = self.results_scroll + 1;
            }
        } else {
            let next = next_setting_down(self.setting_option, self.global_output_format, self.selected_file());
            self.setting_option = next;
        }
        proof {
            assert(self.model() =~= down_step(m).0);
            assert(eff@ =~= down_step(m).1);
        }
        eff
    }

    fn page_up_key(&mut self) -> (eff: Vec<Effect>)
        requires
            old(self).wf(),
            old(self).files.len() > 0,
        ensures
            final(self).wf(),
            (final(self).model(), eff@) == page_up_step(old(self).model()),
    {
        let ghost m = old(self).model();
        let cur = match self.selected_index {
            Some(i) => i,
            None => 0,
        };
        let new_idx = cur.saturating_sub(self.visible_rows);
        self.selected_index = Some(new_idx);
        self.scroll_offset = self.scroll_offset.saturating_sub(self.visible_rows);
        let eff = vec![Effect::LoadExif(new_idx), Effect::PreloadExif { start: new_idx, count: 10 }];
        proof {
            assert(self.model() =~= page_up_step(m).0);
            assert(eff@ =~= page_up_step(m).1);
        }
        eff
    }

    fn page_down_key(&mut self) -> (eff: Vec<Effect>)
        requires
            old(self).wf(),
            old(self).files.len() > 0,
            main_defined(old(self).model(), Key::PageDown),
            old(self).focused_column == FocusedColumn::Files,
        ensures
            final(self).wf(),
            (final(self).model(), eff@) == page_down_step(old(self).model()),
    {
        let ghost m = old(self).model();
        let max_idx = self.files.len() - 1;
        let cur = match self.selected_index {
            Some(i) => i,
            None => 0,
        };
        let a = cur + self.visible_rows;
        let new_idx = if a < max_idx {
            a
        } else {
            max_idx
        };
        self.selected_index = Some(new_idx);
        let b = self.scroll_offset + self.visible_rows;
        let c = max_idx.saturating_sub(self.visible_rows - 1);
        self.scroll_offset = if b < c {
            b
        } else {
            c
        };
        let eff = vec![Effect::LoadExif(new_idx), Effect::PreloadExif { start: new_idx, count: 10 }];
        proof {
            assert(self.model() =~= page_down_step(m).0);
            assert(eff@ =~= page_down_step(m).1);
        }
        eff
    }

    fn home_key(&mut self) -> (eff: Vec<Effect>)
        requires
            old(self).wf(),
            old(self).files.len() > 0,
        ensures
            final(self).wf(),
            (final(self).model(), eff@) == home_step(old(self).model()),
    {
        let ghost m = old(self).model();
        self.selected_index = Some(0);
        self.scroll_offset = 0;
        let eff = vec![Effect::LoadExif(0), Effect::PreloadExif { start: 0, count: 10 }];
        proof {
            assert(self.model() =~= home_step(m).0);
            assert(eff@ =~= home_step(m).1);
        }
        eff
    }

    fn end_key(&mut self) -> (eff: Vec<Effect>)
        requires
            old(self).wf(),
            old(self).files.len() > 0,
            old(self).visible_rows >= 1,
        ensures
            final(self).wf(),
            (final(self).model(), eff@) == end_step(old(self).model()),
    {
        let ghost m = old(self).model();
        let max_idx = self.files.len() - 1;
        self.selected_index = Some(max_idx);
        self.scroll_offset = max_idx.saturating_sub(self.visible_rows - 1);
        let eff = vec![Effect::LoadExif(max_idx), Effect::PreloadExif { start: max_idx, count: 10 }];
        proof {
            assert(self.model() =~= end_step(m).0);
            assert(eff@ =~= end_step(m).1);
        }
        eff
    }
}

fn color_left_of(c: ColorSpace) -> (r: ColorSpace)
    ensures
        r == color_left(c),
{
    match c {
        ColorSpace::Rgba => ColorSpace::Grayscale,
        ColorSpace::Grayscale => ColorSpace::Rgb,
        ColorSpace::Rgb => ColorSpace::Rgba,
    }
}

fn color_right_of(c: ColorSpace) -> (r: ColorSpace)
    ensures
        r == color_right(c),
{
    match c {
        ColorSpace::Rgb => ColorSpace::Rgba,
        ColorSpace::Grayscale => ColorSpace::Rgb,
        ColorSpace::Rgba => ColorSpace::Grayscale,
    }
}

fn format_left_of(f: Option<OutputFormat>) -> (r: Option<OutputFormat>)
    ensures
        r == format_left(f),
{
    match f {
        None => Some(OutputFormat::Tga),
        Some(OutputFormat::Same) => Some(OutputFormat::Tga),
        Some(OutputFormat::Jpeg) => None,
        Some(OutputFormat::Png) => Some(OutputFormat::Jpeg),
        Some(OutputFormat::Webp) => Some(OutputFormat::Png),
        Some(OutputFormat::Gif) => Some(OutputFormat::Webp),
        Some(OutputFormat::Tiff) => Some(OutputFormat::Gif),
        Some(OutputFormat::Bmp) => Some(OutputFormat::Tiff),
        Some(OutputFormat::Tga) => Some(OutputFormat::Bmp),
    }
}

fn format_right_of(f: Option<OutputFormat>) -> (r: Option<OutputFormat>)
    ensures
        r == format_right(f),
{
    match f {
        None => Some(OutputFormat::Jpeg),
        Some(OutputFormat::Same) => Some(OutputFormat::Jpeg),
        Some(OutputFormat::Jpeg) => Some(OutputFormat::Png),
        Some(OutputFormat::Png) => Some(OutputFormat::Webp),
        Some(OutputFormat::Webp) => Some(OutputFormat::Gif),
        Some(OutputFormat::Gif) => Some(OutputFormat::Tiff),
        Some(OutputFormat::Tiff) => Some(OutputFormat::Bmp),
        Some(OutputFormat::Bmp) => Some(OutputFormat::Tga),
        Some(OutputFormat::Tga) => None,
    }
}

fn limit_left_of(v: Option<u32>) -> (r: Option<u32>)
    ensures
        r == limit_left(v),
{
    let cur = match v {
        Some(x) => x,
        None => 0,
    };
    let new_val = cur.saturating_sub(100);
    if new_val > 0 {
        Some(new_val)
    } else {
        None
    }
}

fn limit_right_of(v: Option<u32>) -> (r: Option<u32>)
    requires
        match v {
            Some(x) => x + 100 <= u32::MAX,
            None => true,
        },
    ensures
        r == limit_right(v),
{
    let cur = match v {
        Some(x) => x,
        None => 0,
    };
    let new_val = if cur == 0 {
        100
    } else {
        let a = cur + 100;
        if a < 10000 {
            a
        } else {
            10000
        }
    };
    Some(new_val)
}

impl App {
    /// Replaces the selected file's settings; nothing without a selection.
    pub fn set_selected_settings(&mut self, st: ImageSettings)
        requires
            old(self).wf(),
        ensures
            final(self).wf(),
            final(self).model() == set_sel_settings(old(self).model(), st),
    {
        let ghost m = old(self).model();
        if let Some(i) = self.selected_index {
            set_settings(&mut self.files, i, st);
        }
        proof {
            assert(self.model() =~= set_sel_settings(m, st));
        }
    }

    /// The selected file's settings, or the defaults without a selection.
    pub fn selected_settings(&self) -> (st: ImageSettings)
        requires
            self.wf(),
        ensures
            self.selected_index is Some ==> st == sel(self.model()).settings,
            self.selected_index is None ==> st.is_default(),
    {
        match self.selected_index {
            Some(i) => self.files[i].settings.copied(),
            None => ImageSettings::default(),
        }
    }

    fn open_output_dir_entry(&mut self)
        requires
            old(self).wf(),
        ensures
            final(self).wf(),
            final(self).model() == open_dir_entry(old(self).model()),
    {
        let ghost m = old(self).model();
        self.input_mode = true;
        self.input_target = SettingOption::OutputDir;
        self.input_buffer = String::new();
        proof {
            assert(self.input_buffer@ =~= Seq::<char>::empty());
            assert(self.model() =~= open_dir_entry(m));
        }
    }

    /// Left on the settings panel.
    fn left_key(&mut self)
        requires
            old(self).wf(),
        ensures
            final(self).wf(),
            final(self).model() == left_step(old(self).model()),
    {
        let ghost m = old(self).model();
        match self.setting_option {
            SettingOption::Format => {
                self.global_output_format = format_left_of(self.global_output_format);
            },
            SettingOption::OutputDir => {
                self.open_output_dir_entry();
            },
            _ => {
                let st = self.selected_settings();
                let nst = left_settings_of(self.setting_option, st);
                self.set_selected_settings(nst);
                if self.setting_option == SettingOption::Quality {
                    self.default_quality = self.default_quality.saturating_sub(5);
                }
            },
        }
        proof {
            assert(self.model() =~= left_step(m));
        }
    }

    /// Right on the settings panel.
    fn right_key(&mut self)
        requires
            old(self).wf(),
            old(self).focused_column == FocusedColumn::ImageSettings,
            main_defined(old(self).model(), Key::Right),
        ensures
            final(self).wf(),
            final(self).model() == right_step(old(self).model()),
    {
        let ghost m = old(self).model();
        match self.setting_option {
            SettingOption::Format => {
                self.global_output_format = format_right_of(self.global_output_format);
            },
            SettingOption::OutputDir => {
                self.open_output_dir_entry();
            },
            _ => {
                let st = self.selected_settings();
                let nst = right_settings_of(self.setting_option, st);
                self.set_selected_settings(nst);
                if self.setting_option == SettingOption::Quality {
                    let d = self.default_quality + 5;
                    self.default_quality = if d < 100 {
                        d
                    } else {
                        100
                    };
                }
            },
        }
        proof {
            assert(self.model() =~= right_step(m));
        }
    }
}

fn left_settings_of(o: SettingOption, st: ImageSettings) -> (r: ImageSettings)
    ensures
        r == left_settings(o, st),
{
    let mut st = st;
    match o {
        SettingOption::Quality => {
            st.quality = st.quality.saturating_sub(5);
        },
        SettingOption::Color => {
            st.color_space = color_left_of(st.color_space);
        },
        SettingOption::Exif => {
            st.remove_exif = !st.remove_exif;
        },
        SettingOption::Progressive => {
            st.progressive = !st.progressive;
        },
        SettingOption::PngCompress => {
            st.png_compression = st.png_compression.saturating_sub(1);
        },
        SettingOption::MaxWidth => {
            st.max_width = limit_left_of(st.max_width);
        },
        SettingOption::MaxHeight => {
            st.max_height = limit_left_of(st.max_height);
        },
        SettingOption::WebpLossless => {
            st.webp_lossless = !st.webp_lossless;
        },
        SettingOption::Overwrite => {
            st.overwrite = !st.overwrite;
        },
        SettingOption::Backup => {
            st.backup = !st.backup;
        },
        _ => {},
    }
    st
}

fn right_settings_of(o: SettingOption, st: ImageSettings) -> (r: ImageSettings)
    requires
        o == SettingOption::Quality ==> st.quality + 5 <= 255,
        o == SettingOption::PngCompress ==> st.png_compression + 1 <= 255,
        o == SettingOption::MaxWidth ==> match st.max_width {
            Some(v) => v + 100 <= u32::MAX,
            None => true,
        },
        o == SettingOption::MaxHeight ==> match st.max_height {
            Some(v) => v + 100 <= u32::MAX,
            None => true,
        },
    ensures
        r == right_settings(o, st),
{
    let mut st = st;
    match o {
        SettingOption::Quality => {
            let q = st.quality + 5;
            st.quality = if q < 100 {
                q
            } else {
                100
            };
        },
        SettingOption::Color => {
            st.color_space = color_right_of(st.color_space);
        },
        SettingOption::Exif => {
            st.remove_exif = !st.remove_exif;
        },
        SettingOption::Progressive => {
            st.progressive = !st.progressive;
        },
        SettingOption::PngCompress => {
            let p = st.png_compression + 1;
            st.png_compression = if p < 9 {
                p
            } else {
                9
            };
        },
        SettingOption::MaxWidth => {
            st.max_width = limit_right_of(st.max_width);
        },
        SettingOption::MaxHeight => {
            st.max_height = limit_right_of(st.max_height);
        },
        SettingOption::WebpLossless => {
            st.webp_lossless = !st.webp_lossless;
        },
        SettingOption::Overwrite => {
            st.overwrite = !st.overwrite;
        },
        SettingOption::Backup => {
            st.backup = !st.backup;
        },
        _ => {},
    }
    st
}

impl App {
    /// Goes to the parent directory, if there is one; the caller then lists it.
    pub fn navigate_up(&mut self) -> (eff: Vec<Effect>)
        requires
            old(self).wf(),
        ensures
            final(self).wf(),
            (final(self).model(), eff@) == navigate_up_step(old(self).model()),
    {
        let ghost m = old(self).model();
        let mut eff: Vec<Effect> = Vec::new();
        if let Some(parent) = path_parent(self.current_dir.as_str()) {
            self.current_dir = parent;
            eff.push(Effect::LoadDirectory);
        }
        proof {
            assert(self.model() =~= navigate_up_step(m).0);
            assert(eff@ =~= navigate_up_step(m).1);
        }
        eff
    }

    /// Opens the selected entry: the parent link goes up, a directory is entered.
    pub fn enter_directory(&mut self) -> (eff: Vec<Effect>)
        requires
            old(self).wf(),
        ensures
            final(self).wf(),
            (final(self).model(), eff@) == enter_directory_step(old(self).model()),
    {
        let ghost m = old(self).model();
        if let Some(idx) = self.selected_index {
            if self.files[idx].is_parent {
                return self.navigate_up();
            } else if self.files[idx].is_dir {
                self.current_dir = self.files[idx].path.clone();
                let eff = vec![Effect::LoadDirectory];
                proof {
                    assert(self.model() =~= enter_directory_step(m).0);
                    assert(eff@ =~= enter_directory_step(m).1);
                }
                return eff;
            }
        }
        let eff: Vec<Effect> = Vec::new();
        proof {
            assert(eff@ =~= enter_directory_step(m).1);
        }
        eff
    }

    /// Rebuilds the queue from the files' queued flags, in list order.
    pub fn update_queue_positions(&mut self)
        requires
            old(self).wf(),
        ensures
            final(self).wf(),
            final(self).model() == (AppModel { queue: queued_indices(old(self).files@), ..old(self).model() }),
    {
        let ghost m = old(self).model();
        let mut new_queue: Vec<usize> = Vec::new();
        let mut i: usize = 0;
        while i < self.files.len()
            invariant
                i <= self.files.len(),
                self.files@ == m.files,
                new_queue@ == queued_indices(self.files@.take(i as int)),
                forall|k: int| 0 <= k < new_queue@.len() ==> #[trigger] new_queue@[k] < i,
            decreases self.files.len() - i,
        {
            proof {
                assert(self.files@.take(i + 1).drop_last() == self.files@.take(i as int));
            }
            if self.files[i].queued {
                new_queue.push(i);
            }
            i = i + 1;
            proof {
                assert(new_queue@ =~= queued_indices(self.files@.take(i as int)));
            }
        }
        proof {
            assert(self.files@.take(self.files.len() as int) == self.files@);
        }
        self.queue = new_queue;
        proof {
            assert(self.model() =~= (AppModel { queue: queued_indices(m.files), ..m }));
        }
    }

    /// Space: puts the selected file into the queue or takes it out.
    pub fn toggle_queue(&mut self)
        requires
            old(self).wf(),
        ensures
            final(self).wf(),
            final(self).model() == toggle_queue_step(old(self).model()),
    {
        let ghost m = old(self).model();
        if let Some(idx) = self.selected_index {
            let now = !self.files[idx].queued;
            set_queued(&mut self.files, idx, now);
            if now {
                self.compression_results = Vec::new();
                self.results_scroll = 0;
            }
            proof {
                assert(self.files@.len() == m.files.len());
                assert forall|k: int| 0 <= k < self.queue@.len() implies #[trigger] self.queue@[k]
                    < self.files@.len() by {
                    assert(m.queue[k] < m.files.len());
                }
                assert(model_wf(self.model()));
            }
            self.update_queue_positions();
            proof {
                assert(self.compression_results@ =~= toggle_queue_step(m).compression_results);
                assert(self.model() =~= toggle_queue_step(m));
            }
        }
    }

    /// Marks or unmarks the selected file.
    pub fn toggle_selected(&mut self)
        requires
            old(self).wf(),
        ensures
            final(self).wf(),
            final(self).model() == match old(self).selected_index {
                Some(i) => AppModel {
                    files: old(self).files@.update(
                        i as int,
                        ImageFile { selected: !old(self).files@[i as int].selected, ..old(self).files@[i as int] },
                    ),
                    ..old(self).model()
                },
                None => old(self).model(),
            },
    {
        let ghost m = old(self).model();
        if let Some(idx) = self.selected_index {
            let now = !self.files[idx].selected;
            self.files[idx].selected = now;
            proof {
                assert(self.files@ =~= m.files.update(
                    idx as int,
                    ImageFile { selected: !m.files[idx as int].selected, ..m.files[idx as int] },
                ));
            }
        }
        proof {
            assert(self.model() =~= match m.selected_index {
                Some(i) => AppModel {
                    files: m.files.update(i as int, ImageFile { selected: !m.files[i as int].selected, ..m.files[i as int] }),
                    ..m
                },
                None => m,
            });
        }
    }

    /// `C`: takes every file of the queue out of it and clears the results.
    pub fn clear_queue(&mut self)
        requires
            old(self).wf(),
        ensures
            final(self).wf(),
            final(self).model() == clear_queue_step(old(self).model()),
    {
        let ghost m = old(self).model();
        let mut k: usize = 0;
        while k < self.queue.len()
            invariant
                k <= self.queue.len(),
                self.queue@ == m.queue,
                self.files@.len() == m.files.len(),
                model_wf(m),
                self.model() == (AppModel { files: self.files@, ..m }),
                self.metadata_cache.inv(),
                self.exif_cache.inv(),
                forall|j: int|
                    0 <= j < m.files.len() ==> #[trigger] self.files@[j] == if m.queue.take(k as int).contains(
                        j as usize,
                    ) {
                        ImageFile { queued: false, ..m.files[j] }
                    } else {
                        m.files[j]
                    },
            decreases self.queue.len() - k,
        {
            let idx = self.queue[k];
            proof {
                assert(m.queue[k as int] < m.files.len());
            }
            set_queued(&mut self.files, idx, false);
            k = k + 1;
            proof {
                assert forall|j: int| 0 <= j < m.files.len() implies #[trigger] self.files@[j] == if m.queue.take(
                    k as int,
                ).contains(j as usize) {
                    ImageFile { queued: false, ..m.files[j] }
                } else {
                    m.files[j]
                } by {
                    if j == idx {
                        assert(m.queue.take(k as int)[k - 1] == idx);
                    } else {
                        if m.queue.take(k as int).contains(j as usize) {
                            let t = choose|t: int| 0 <= t < k && #[trigger] m.queue.take(k as int)[t] == j as usize;
                            assert(m.queue.take(k - 1)[t] == j as usize);
                        }
                        if m.queue.take(k - 1).contains(j as usize) {
                            let t = choose|t: int| 0 <= t < k - 1 && #[trigger] m.queue.take(k - 1)[t] == j as usize;
                            assert(m.queue.take(k as int)[t] == j as usize);
                        }
                    }
                }
            }
        }
        proof {
            assert(m.queue.take(self.queue.len() as int) == m.queue);
        }
        self.queue = Vec::new();
        self.compression_results = Vec::new();
        self.results_scroll = 0;
        proof {
            assert(self.queue@ =~= Seq::<usize>::empty());
            assert(self.compression_results@ =~= clear_queue_step(m).compression_results);
            assert(self.files@ =~= clear_queue_step(m).files);
            assert(self.model() =~= clear_queue_step(m));
        }
    }
}

impl App {
    /// The size entry of the settings panel; returns whether the key was used up.
    fn settings_pre_key(&mut self, key: Key) -> (used: bool)
        requires
            old(self).wf(),
        ensures
            final(self).wf(),
            (final(self).model(), used) == settings_pre_step(old(self).model(), key),
    {
        let ghost m = old(self).model();
        if self.focused_column != FocusedColumn::ImageSettings {
            return false;
        }
        match key {
            Key::Char(c) => {
                if '0' <= c && c <= '9' {
                    if self.setting_option == SettingOption::MaxWidth {
                        push_char(&mut self.width_input, c);
                    } else if self.setting_option == SettingOption::MaxHeight {
                        push_char(&mut self.height_input, c);
                    }
                    proof {
                        assert(self.model() =~= settings_pre_step(m, key).0);
                    }
                    return true;
                }
                false
            },
            Key::Backspace => {
                if self.setting_option == SettingOption::MaxWidth {
                    pop_char(&mut self.width_input);
                } else if self.setting_option == SettingOption::MaxHeight {
                    pop_char(&mut self.height_input);
                }
                proof {
                    assert(self.model() =~= settings_pre_step(m, key).0);
                }
                true
            },
            Key::Tab | Key::Up | Key::Down | Key::Left | Key::Right | Key::Enter => {
                self.commit_size_inputs();
                false
            },
            _ => false,
        }
    }

    /// The general keys.
    fn main_key(&mut self, key: Key) -> (eff: Vec<Effect>)
        requires
            old(self).wf(),
            main_defined(old(self).model(), key),
        ensures
            final(self).wf(),
            (final(self).model(), eff@) == main_step(old(self).model(), key),
    {
        let ghost m = old(self).model();
        let files_focus = self.focused_column == FocusedColumn::Files;
        let nonempty = self.files.len() > 0;
        if key == Key::Char('?') {
            self.show_help = !self.show_help;
            let eff: Vec<Effect> = Vec::new();
            proof {
                assert(eff@ =~= Seq::<Effect>::empty());
            }
            eff
        } else if key == Key::Tab && self.show_settings {
            self.focused_column = match self.focused_column {
                FocusedColumn::Files => FocusedColumn::ImageSettings,
                FocusedColumn::ImageSettings => FocusedColumn::Output,
                FocusedColumn::Output => FocusedColumn::Files,
            };
            let eff: Vec<Effect> = Vec::new();
            proof {
                assert(eff@ =~= Seq::<Effect>::empty());
            }
            eff
        } else if key == Key::Up || key == Key::Char('k') {
            self.up_key()
        } else if key == Key::Down || key == Key::Char('j') {
            self.down_key()
        } else if key == Key::PageUp && files_focus && nonempty {
            self.page_up_key()
        } else if key == Key::PageDown && files_focus && nonempty {
            self.page_down_key()
        } else if key == Key::Home && files_focus && nonempty {
            self.home_key()
        } else if key == Key::End && files_focus && nonempty {
            self.end_key()
        } else if key == Key::Left && self.focused_column == FocusedColumn::ImageSettings {
            self.left_key();
            let eff: Vec<Effect> = Vec::new();
            proof {
                assert(eff@ =~= Seq::<Effect>::empty());
            }
            eff
        } else if key == Key::Right && self.focused_column == FocusedColumn::ImageSettings {
            self.right_key();
            let eff: Vec<Effect> = Vec::new();
            proof {
                assert(eff@ =~= Seq::<Effect>::empty());
            }
            eff
        } else if key == Key::Enter && files_focus {
            self.enter_directory()
        } else if key == Key::Backspace && files_focus {
            self.navigate_up()
        } else if key == Key::Char(' ') && files_focus {
            self.toggle_queue();
            let eff: Vec<Effect> = Vec::new();
            proof {
                assert(eff@ =~= Seq::<Effect>::empty());
            }
            eff
        } else if key == Key::Char('c') && self.queue.len() > 0 && !self.compressing {
            let eff = vec![Effect::StartCompression];
            proof {
                assert(eff@ =~= seq![Effect::StartCompression]);
            }
            eff
        } else if key == Key::Char('C') {
            self.clear_queue();
            let eff: Vec<Effect> = Vec::new();
            proof {
                assert(eff@ =~= Seq::<Effect>::empty());
            }
            eff
        } else if key == Key::Char('q') || key == Key::Esc {
            if self.compressing {
                self.compression_cancelled = true;
                let eff: Vec<Effect> = Vec::new();
                proof {
                    assert(eff@ =~= Seq::<Effect>::empty());
                }
                eff
            } else {
                let eff = vec![Effect::Quit];
                proof {
                    assert(eff@ =~= seq![Effect::Quit]);
                }
                eff
            }
        } else {
            let eff: Vec<Effect> = Vec::new();
            proof {
                assert(eff@ =~= Seq::<Effect>::empty());
            }
            eff
        }
    }

    /// Handles one key press and returns the work the caller performs next,
    /// in order. `home` is the home directory (the value of `HOME`), used to
    /// expand `~` in a typed output directory.
    pub fn handle_key(&mut self, key: Key, home: Option<&str>) -> (eff: Vec<Effect>)
        requires
            old(self).wf(),
            key_defined(old(self).model(), key, opt_str(home)),
        ensures
            final(self).wf(),
            (final(self).model(), eff@) == key_step(old(self).model(), key, opt_str(home)),
    {
        let ghost m = old(self).model();
        if self.show_help {
            if key != Key::Null {
                self.show_help = false;
            }
            let eff: Vec<Effect> = Vec::new();
            proof {
                assert(eff@ =~= Seq::<Effect>::empty());
                assert(self.model() =~= key_step(m, key, opt_str(home)).0);
            }
            return eff;
        }
        if self.compressing {
            if key == Key::Esc || key == Key::Char('q') || key == Key::Char('Q') {
                self.compression_cancelled = true;
                let eff = vec![Effect::SendCancelled];
                proof {
                    assert(eff@ =~= seq![Effect::SendCancelled]);
                }
                return eff;
            }
            let eff: Vec<Effect> = Vec::new();
            proof {
                assert(eff@ =~= Seq::<Effect>::empty());
            }
            return eff;
        }
        if self.input_mode {
            self.input_key(key, home);
            let eff: Vec<Effect> = Vec::new();
            proof {
                assert(eff@ =~= Seq::<Effect>::empty());
            }
            return eff;
        }
        let used = self.settings_pre_key(key);
        if used {
            let eff: Vec<Effect> = Vec::new();
            proof {
                assert(eff@ =~= Seq::<Effect>::empty());
            }
            return eff;
        }
        self.main_key(key)
    }
}

impl App {
    /// Whether the general keys can handle `key` without an arithmetic
    /// fault in the current state.
    fn main_key_defined(&self, key: Key) -> (b: bool)
        requires
            self.wf(),
        ensures
            b == main_defined(self.model(), key),
    {
        let files_focus = self.focused_column == FocusedColumn::Files;
        let nonempty = self.files.len() > 0;
        if key == Key::Char('?') || (key == Key::Tab && self.show_settings) || key == Key::Up || key
            == Key::Char('k') {
            true
        } else if key == Key::Down || key == Key::Char('j') {
            match self.selected_index {
                Some(i) => {
                    if files_focus && i + 1 < self.files.len() {
                        match self.scroll_offset.checked_add(self.visible_rows) {
                            Some(end) => end >= 1 && (i < end - 1 || self.visible_rows >= 1),
                            None => false,
                        }
                    } else {
                        true
                    }
                },
                None => true,
            }
        } else if key == Key::PageUp && files_focus && nonempty {
            true
        } else if key == Key::PageDown && files_focus && nonempty {
            let cur = match self.selected_index {
                Some(i) => i,
                None => 0,
            };
            cur.checked_add(self.visible_rows).is_some() && self.scroll_offset.checked_add(
                self.visible_rows,
            ).is_some() && self.visible_rows >= 1
        } else if key == Key::Home && files_focus && nonempty {
            true
        } else if key == Key::End && files_focus && nonempty {
            self.visible_rows >= 1
        } else if key == Key::Left && self.focused_column == FocusedColumn::ImageSettings {
            true
        } else if key == Key::Right && self.focused_column == FocusedColumn::ImageSettings {
            let file = match self.selected_index {
                Some(i) => Some(&self.files[i]),
                None => None,
            };
            match self.setting_option {
                SettingOption::Quality => self.default_quality <= 250 && match file {
                    Some(f) => f.settings.quality <= 250,
                    None => true,
                },
                SettingOption::PngCompress => match file {
                    Some(f) => f.settings.png_compression <= 254,
                    None => true,
                },
                SettingOption::MaxWidth => match file {
                    Some(f) => match f.settings.max_width {
                        Some(v) => v <= u32::MAX - 100,
                        None => true,
                    },
                    None => true,
                },
                SettingOption::MaxHeight => match file {
                    Some(f) => match f.settings.max_height {
                        Some(v) => v <= u32::MAX - 100,
                        None => true,
                    },
                    None => true,
                },
                _ => true,
            }
        } else {
            true
        }
    }

    /// Handles one key press like `handle_key`, for any state and key: it
    /// returns `None`, having possibly taken in a typed size, where the
    /// handling would overflow (a list movement with no visible rows or a
    /// sum beyond the integer types, or an increment past its type).
    pub fn handle_key_checked(&mut self, key: Key, home: Option<&str>) -> (r: Option<Vec<Effect>>)
        requires
            old(self).wf(),
        ensures
            final(self).wf(),
            match r {
                Some(eff) => key_defined(old(self).model(), key, opt_str(home)) && (final(self).model(), eff@)
                    == key_step(old(self).model(), key, opt_str(home)),
                None => !key_defined(old(self).model(), key, opt_str(home)),
            },
    {
        let ghost m = old(self).model();
        if self.show_help || self.compressing {
            return Some(self.handle_key(key, home));
        }
        if self.input_mode {
            return Some(self.handle_key(key, home));
        }
        let used = self.settings_pre_key(key);
        if used {
            let eff: Vec<Effect> = Vec::new();
            proof {
                assert(eff@ =~= Seq::<Effect>::empty());
            }
            return Some(eff);
        }
        if !self.main_key_defined(key) {
            return None;
        }
        Some(self.main_key(key))
    }
}

/// Whether a lowercase extension names an image format the browser lists.
pub open spec fn is_listed_ext(e: Seq<char>) -> bool {
    e == "jpg"@ || e == "jpeg"@ || e == "png"@ || e == "webp"@ || e == "gif"@ || e == "tiff"@ || e
        == "tif"@ || e == "bmp"@ || e == "tga"@
}

/// Whether a path has the extension of a supported image (in any case).
pub open spec fn supported_image(path: Seq<char>) -> bool {
    match lower_extension(path) {
        Some(e) => is_listed_ext(e),
        None => false,
    }
}

/// The new number of visible rows, and the scroll offset kept within the list.
pub open spec fn visible_rows_step(m: AppModel, terminal_height: u16) -> AppModel {
    let rows = terminal_height.saturating_sub(5) as usize;
    let limit = (m.files.len() as usize).saturating_sub(rows);
    AppModel { visible_rows: rows, scroll_offset: if m.scroll_offset < limit { m.scroll_offset } else { limit }, ..m }
}

impl App {
    /// A fresh interface for the directory `current_dir`: nothing listed or
    /// queued, the file column focused on the format entry, quality 85,
    /// twenty visible rows.
    pub fn new(current_dir: String) -> (app: App)
        ensures
            app.wf(),
            app.current_dir@ == current_dir@,
            app.files@.len() == 0,
            app.queue@.len() == 0,
            app.selected_index is None,
            app.show_settings,
            app.focused_column == FocusedColumn::Files,
            app.setting_option == SettingOption::Format,
            app.default_quality == 85,
            app.global_output_format is None,
            app.global_output_directory is None,
            !app.compressing,
            !app.compression_cancelled,
            app.progress is None,
            app.error_message is None,
            app.success_message is None,
            !app.input_mode,
            app.input_buffer@.len() == 0,
            app.input_target == SettingOption::Format,
            app.width_input@.len() == 0,
            app.height_input@.len() == 0,
            app.metadata_cache.view() == Map::<Seq<char>, CachedImageInfo>::empty(),
            app.exif_cache.view() == Map::<Seq<char>, ExifData>::empty(),
            app.scroll_offset == 0,
            app.visible_rows == 20,
            app.compression_results@.len() == 0,
            app.results_scroll == 0,
            !app.show_help,
    {
        App {
            current_dir,
            files: Vec::new(),
            selected_index: None,
            show_settings: true,
            focused_column: FocusedColumn::Files,
            setting_option: SettingOption::Format,
            queue: Vec::new(),
            default_quality: 85,
            global_output_format: None,
            global_output_directory: None,
            compressing: false,
            compression_cancelled: false,
            progress: None,
            error_message: None,
            success_message: None,
            input_mode: false,
            input_buffer: String::new(),
            input_target: SettingOption::Format,
            width_input: String::new(),
            height_input: String::new(),
            metadata_cache: PathMap::new(),
            exif_cache: PathMap::new(),
            scroll_offset: 0,
            visible_rows: 20,
            compression_results: Vec::new(),
            results_scroll: 0,
            show_help: false,
        }
    }

    /// Adapts to a terminal of the given height: five rows go to the frame
    /// and status bar, and the scroll offset stays within the list.
    pub fn update_visible_rows(&mut self, terminal_height: u16)
        requires
            old(self).wf(),
        ensures
            final(self).wf(),
            final(self).model() == visible_rows_step(old(self).model(), terminal_height),
    {
        let ghost m = old(self).model();
        self.visible_rows = terminal_height.saturating_sub(5) as usize;
        let limit = self.files.len().saturating_sub(self.visible_rows);
        if limit < self.scroll_offset {
            self.scroll_offset = limit;
        }
        proof {
            assert(self.model() =~= visible_rows_step(m, terminal_height));
        }
    }

    /// Whether the browser lists a file with this path: jpg, jpeg, png, webp,
    /// gif, tiff, tif, bmp or tga in any letter case.
    pub fn is_supported_image(path: &str) -> (b: bool)
        ensures
            b == supported_image(path@),
    {
        match path_extension(path) {
            Some(e) => {
                let lower = to_lowercase(&e);
                str_eq(&lower, "jpg") || str_eq(&lower, "jpeg") || str_eq(&lower, "png") || str_eq(
                    &lower,
                    "webp",
                ) || str_eq(&lower, "gif") || str_eq(&lower, "tiff") || str_eq(&lower, "tif")
                    || str_eq(&lower, "bmp") || str_eq(&lower, "tga")
            },
            None => false,
        }
    }

    /// The list entries with their positions (the whole list is visible).
    pub fn get_visible_files(&self) -> (r: Vec<(usize, &ImageFile)>)
        ensures
            r@.len() == self.files@.len(),
            forall|i: int| 0 <= i < r@.len() ==> (#[trigger] r@[i]).0 == i && *r@[i].1 == self.files@[i],
    {
        let mut r: Vec<(usize, &ImageFile)> = Vec::new();
        let mut i: usize = 0;
        while i < self.files.len()
            invariant
                i <= self.files.len(),
                r@.len() == i,
                forall|k: int| 0 <= k < i ==> (#[trigger] r@[k]).0 == k && *r@[k].1 == self.files@[k],
            decreases self.files.len() - i,
        {
            r.push((i, &self.files[i]));
            i = i + 1;
        }
        r
    }

    /// Position of the selected entry among the visible ones.
    pub fn get_visible_index(&self) -> (r: Option<usize>)
        requires
            self.wf(),
        ensures
            r == self.selected_index,
    {
        match self.selected_index {
            Some(idx) => {
                let visible = self.get_visible_files();
                let mut k: usize = 0;
                while k < visible.len()
                    invariant
                        k <= visible@.len(),
                        visible@.len() == self.files@.len(),
                        self.selected_index == Some(idx),
                        idx < self.files@.len(),
                        k <= idx,
                        forall|i: int| 0 <= i < visible@.len() ==> (#[trigger] visible@[i]).0 == i,
                    decreases visible.len() - k,
                {
                    let pos = visible[k].0;
                    assert(pos == k) by {
                        assert(visible@[k as int].0 == k);
                    }
                    if pos == idx {
                        return Some(k);
                    }
                    k = k + 1;
                }
                None
            },
            None => None,
        }
    }

    /// Total size of the queued files.
    pub fn queue_size(&self) -> (total: u64)
        requires
            self.wf(),
            sizes_of(self.files@, self.queue@) <= u64::MAX,
        ensures
            total == sizes_of(self.files@, self.queue@),
    {
        let mut total: u64 = 0;
        let mut k: usize = 0;
        assert forall|j: int| 0 <= j < self.queue@.len() implies #[trigger] self.queue@[j] < self.files@.len() by {
            assert(self.model().queue[j] == self.queue@[j]);
        }
        while k < self.queue.len()
            invariant
                k <= self.queue.len(),
                forall|j: int| 0 <= j < self.queue@.len() ==> #[trigger] self.queue@[j] < self.files@.len(),
                total == sizes_of(self.files@, self.queue@.take(k as int)),
                sizes_of(self.files@, self.queue@) <= u64::MAX,
            decreases self.queue.len() - k,
        {
            proof {
                assert(self.queue@.take(k + 1).drop_last() == self.queue@.take(k as int));
                lemma_sizes_prefix(self.files@, self.queue@, k + 1);
            }
            total = total + self.files[self.queue[k]].size;
            k = k + 1;
        }
        proof {
            assert(self.queue@.take(self.queue.len() as int) == self.queue@);
        }
        total
    }

    /// Sets the selected file's quality to the default quality.
    pub fn apply_default_quality(&mut self)
        requires
            old(self).wf(),
        ensures
            final(self).wf(),
            final(self).model() == set_sel_settings(
                old(self).model(),
                ImageSettings { quality: old(self).default_quality, ..sel(old(self).model()).settings },
            ),
    {
        let ghost m = old(self).model();
        let mut st = self.selected_settings();
        st.quality = self.default_quality;
        self.set_selected_settings(st);
    }

    /// Asks a running compression to stop.
    pub fn cancel_compression(&mut self)
        requires
            old(self).wf(),
        ensures
            final(self).wf(),
            final(self).model() == (AppModel {
                compression_cancelled: old(self).compressing || old(self).compression_cancelled,
                ..old(self).model()
            }),
    {
        let ghost m = old(self).model();
        if self.compressing {
            self.compression_cancelled = true;
        }
        proof {
            assert(self.model() =~= (AppModel {
                compression_cancelled: m.compressing || m.compression_cancelled,
                ..m
            }));
        }
    }
}

proof fn lemma_sizes_prefix(files: Seq<ImageFile>, idx: Seq<usize>, k: int)
    requires
        0 <= k <= idx.len(),
    ensures
        sizes_of(files, idx.take(k)) <= sizes_of(files, idx),
    decreases idx.len(),
{
    if k < idx.len() {
        assert(idx.drop_last().take(k) == idx.take(k));
        lemma_sizes_prefix(files, idx.drop_last(), k);
    } else {
        assert(idx.take(k) == idx);
    }
}

} // verus!
