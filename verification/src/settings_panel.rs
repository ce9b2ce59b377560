//! The settings panel as text: which settings are listed for the selected
//! file and the batch format, their shown values, and which one carries
//! the cursor.
use vstd::prelude::*;
use crate::models::{create_quality_slider, lower_extension, path_to_tilde, quality_slider, tilde_form, ColorSpace, ImageFile, OutputFormat};
use crate::navigation::{FocusedColumn, SettingOption};
use crate::state::{sel_file, App, AppModel};
use crate::text::{decimal, push_all, push_char, push_decimal};

verus! {

/// One line of the settings panel.
#[derive(Debug)]
pub enum PanelLine {
    /// An empty separator line.
    Blank,
    /// A setting with its shown value; `selected` marks the entry the cursor is on.
    Setting { label: String, value: String, selected: bool },
    /// The text being typed into the output directory entry.
    Typing(String),
    /// The key help under the text entry.
    TypingHint,
}

/// A panel line as values.
pub ghost enum LineView {
    Blank,
    Setting(Seq<char>, Seq<char>, bool),
    Typing(Seq<char>),
    TypingHint,
}

impl PanelLine {
    pub open spec fn view(&self) -> LineView {
        match self {
            PanelLine::Blank => LineView::Blank,
            PanelLine::Setting { label, value, selected } => LineView::Setting(label@, value@, *selected),
            PanelLine::Typing(s) => LineView::Typing(s@),
            PanelLine::TypingHint => LineView::TypingHint,
        }
    }
}

/// Whether the panel shows the quality entry (as the panel decides it: PNG
/// output shows no quality there, while lossy WebP output without a
/// selected file does not either).
pub open spec fn panel_quality_shown(format: Option<OutputFormat>, file: Option<ImageFile>) -> bool {
    match format {
        None => true,
        Some(OutputFormat::Jpeg) => true,
        Some(OutputFormat::Webp) => match file {
            Some(f) => !f.settings.webp_lossless,
            None => false,
        },
        Some(OutputFormat::Same) => match file {
            Some(f) => match lower_extension(f.path@) {
                Some(e) => e == "jpg"@ || e == "jpeg"@ || e == "webp"@,
                None => false,
            },
            None => true,
        },
        _ => false,
    }
}

/// `text` followed by `px`.
pub open spec fn px(text: Seq<char>) -> Seq<char> {
    text + "px"@
}

/// The value shown for a size limit: what is being typed, else the limit.
pub open spec fn limit_text(typed: Seq<char>, limit: Option<u32>) -> Seq<char> {
    if typed.len() > 0 {
        px(typed)
    } else {
        match limit {
            Some(v) => px(decimal(v as nat)),
            None => "None"@,
        }
    }
}

/// The value shown for the output directory.
pub open spec fn dir_text(m: AppModel, home: Option<Seq<char>>) -> Seq<char> {
    if m.input_mode && m.input_target == SettingOption::OutputDir {
        if m.input_buffer.len() == 0 {
            "New Path"@
        } else {
            m.input_buffer.push('▌')
        }
    } else {
        match m.global_output_directory {
            Some(d) => tilde_form(d, home),
            None => "Same as source"@,
        }
    }
}

/// A value taken from the selected file, or the default without one.
pub open spec fn file_text(file: Option<ImageFile>, on: spec_fn(ImageFile) -> Seq<char>, default: Seq<char>) -> Seq<char> {
    match file {
        Some(f) => on(f),
        None => default,
    }
}

/// The label of a colour setting.
pub open spec fn color_label(c: ColorSpace) -> Seq<char> {
    c.label()
}

/// Whether the entry `o` carries the cursor.
pub open spec fn on_entry(m: AppModel, o: SettingOption) -> bool {
    m.focused_column == FocusedColumn::ImageSettings && m.setting_option == o
}

pub open spec fn setting_line(m: AppModel, label: Seq<char>, value: Seq<char>, o: SettingOption) -> LineView {
    LineView::Setting(label, value, on_entry(m, o))
}

/// The lines of the settings panel; `slider_width` is the width left for the
/// quality slider.
pub open spec fn settings_panel(m: AppModel, home: Option<Seq<char>>, slider_width: nat) -> Seq<LineView> {
    let file = sel_file(m);
    let format = match m.global_output_format {
        Some(f) => f,
        None => OutputFormat::Same,
    };
    let head = seq![
        LineView::Blank,
        setting_line(
            m,
            "Format"@,
            match m.global_output_format {
                Some(f) => f.label(),
                None => "Same"@,
            },
            SettingOption::Format,
        ),
    ];
    let webp = if format == OutputFormat::Webp {
        seq![
            setting_line(
                m,
                "WebP"@,
                file_text(file, |f: ImageFile| if f.settings.webp_lossless { "Lossless"@ } else { "Lossy"@ }, "Lossy"@),
                SettingOption::WebpLossless,
            ),
        ]
    } else {
        Seq::empty()
    };
    let quality = if panel_quality_shown(m.global_output_format, file) {
        seq![
            setting_line(
                m,
                "Quality"@,
                quality_slider(
                    match file {
                        Some(f) => f.settings.quality,
                        None => 85u8,
                    },
                    slider_width,
                ),
                SettingOption::Quality,
            ),
        ]
    } else {
        Seq::empty()
    };
    let basics = seq![
        setting_line(m, "Color"@, file_text(file, |f: ImageFile| color_label(f.settings.color_space), "RGB"@), SettingOption::Color),
        setting_line(
            m,
            "EXIF"@,
            file_text(file, |f: ImageFile| if f.settings.remove_exif { "Remove"@ } else { "Keep"@ }, "Keep"@),
            SettingOption::Exif,
        ),
    ];
    let png = if format == OutputFormat::Png {
        seq![
            LineView::Blank,
            setting_line(
                m,
                "Progressive"@,
                file_text(file, |f: ImageFile| if f.settings.progressive { "Yes"@ } else { "No"@ }, "No"@),
                SettingOption::Progressive,
            ),
            setting_line(
                m,
                "PNG Comp"@,
                file_text(file, |f: ImageFile| decimal(f.settings.png_compression as nat), "6"@),
                SettingOption::PngCompress,
            ),
        ]
    } else {
        Seq::empty()
    };
    let sizes = seq![
        LineView::Blank,
        setting_line(
            m,
            "Max Width"@,
            limit_text(m.width_input, match file { Some(f) => f.settings.max_width, None => None }),
            SettingOption::MaxWidth,
        ),
        setting_line(
            m,
            "Max Height"@,
            limit_text(m.height_input, match file { Some(f) => f.settings.max_height, None => None }),
            SettingOption::MaxHeight,
        ),
        LineView::Blank,
        setting_line(
            m,
            "Output"@,
            file_text(file, |f: ImageFile| if f.settings.overwrite { "Overwrite"@ } else { "New file"@ }, "Overwrite"@),
            SettingOption::Overwrite,
        ),
        setting_line(
            m,
            "Backup"@,
            file_text(file, |f: ImageFile| if f.settings.backup { "Yes"@ } else { "No"@ }, "No"@),
            SettingOption::Backup,
        ),
        LineView::Blank,
        setting_line(m, "Output Dir"@, dir_text(m, home), SettingOption::OutputDir),
    ];
    let typing = if m.input_mode {
        seq![LineView::Typing(m.input_buffer), LineView::TypingHint]
    } else {
        Seq::empty()
    };
    head + webp + quality + basics + png + sizes + typing
}

/// The views of panel lines.
pub open spec fn line_views(lines: Seq<PanelLine>) -> Seq<LineView> {
    lines.map_values(|l: PanelLine| l.view())
}

fn push_line(lines: &mut Vec<PanelLine>, l: PanelLine)
    ensures
        line_views(final(lines)@) == line_views(old(lines)@).push(l.view()),
{
    let ghost before = lines@;
    lines.push(l);
    proof {
        assert(line_views(lines@) =~= line_views(before).push(l.view()));
    }
}

fn setting(label: &str, value: String, selected: bool) -> (l: PanelLine)
    ensures
        l.view() == LineView::Setting(label@, value@, selected),
{
    PanelLine::Setting { label: label.to_string(), value, selected }
}

fn yes_no(b: bool, yes: &str, no: &str) -> (s: String)
    ensures
        s@ == if b {
            yes@
        } else {
            no@
        },
{
    if b {
        yes.to_string()
    } else {
        no.to_string()
    }
}

fn limit_value(typed: &String, limit: Option<u32>) -> (s: String)
    ensures
        s@ == limit_text(typed@, limit),
{
    let mut s = String::new();
    if !typed.as_str().is_empty() {
        push_all(&mut s, typed.as_str());
    } else {
        match limit {
            Some(v) => push_decimal(&mut s, v as u64),
            None => {
                return "None".to_string();
            },
        }
    }
    push_all(&mut s, "px");
    s
}

pub open spec fn opt_ref(file: Option<&ImageFile>) -> Option<ImageFile> {
    match file {
        Some(f) => Some(*f),
        None => None,
    }
}

impl App {
    fn panel_head(&self, file: Option<&ImageFile>, slider_width: usize, lines: &mut Vec<PanelLine>)
        requires
            self.wf(),
            slider_width <= 0xFFFF,
            opt_ref(file) == sel_file(self.model()),
        ensures
            ({
                let m = self.model();
                let fs = sel_file(m);
                let format = match m.global_output_format {
                    Some(f) => f,
                    None => OutputFormat::Same,
                };
                line_views(final(lines)@) == line_views(old(lines)@) + seq![
                    LineView::Blank,
                    setting_line(
                        m,
                        "Format"@,
                        match m.global_output_format {
                            Some(f) => f.label(),
                            None => "Same"@,
                        },
                        SettingOption::Format,
                    ),
                ] + (if format == OutputFormat::Webp {
                    seq![
                        setting_line(
                            m,
                            "WebP"@,
                            file_text(fs, |f: ImageFile| if f.settings.webp_lossless { "Lossless"@ } else { "Lossy"@ }, "Lossy"@),
                            SettingOption::WebpLossless,
                        ),
                    ]
                } else {
                    Seq::empty()
                }) + (if panel_quality_shown(m.global_output_format, fs) {
                    seq![
                        setting_line(
                            m,
                            "Quality"@,
                            quality_slider(
                                match fs {
                                    Some(f) => f.settings.quality,
                                    None => 85u8,
                                },
                                slider_width as nat,
                            ),
                            SettingOption::Quality,
                        ),
                    ]
                } else {
                    Seq::empty()
                })
            }),
    {
        let ghost start = line_views(lines@);
        let on = self.focused_column == FocusedColumn::ImageSettings;
        push_line(lines, PanelLine::Blank);
        let fmt_text = match self.global_output_format {
            Some(f) => f.as_str(),
            None => "Same",
        };
        push_line(lines, setting("Format", fmt_text.to_string(), on && self.setting_option == SettingOption::Format));
        let ghost after_head = line_views(lines@);
        let format = match self.global_output_format {
            Some(f) => f,
            None => OutputFormat::Same,
        };
        if format == OutputFormat::Webp {
            let v = match file {
                Some(f) => yes_no(f.settings.webp_lossless, "Lossless", "Lossy"),
                None => "Lossy".to_string(),
            };
            push_line(lines, setting("WebP", v, on && self.setting_option == SettingOption::WebpLossless));
        }
        let ghost after_webp = line_views(lines@);
        let show_quality = match self.global_output_format {
            None => true,
            Some(OutputFormat::Jpeg) => true,
            Some(OutputFormat::Webp) => match file {
                Some(f) => !f.settings.webp_lossless,
                None => false,
            },
            Some(OutputFormat::Same) => match file {
                Some(f) => match f.extension() {
                    Some(e) => crate::text::str_eq(&e, "jpg") || crate::text::str_eq(&e, "jpeg")
                        || crate::text::str_eq(&e, "webp"),
                    None => false,
                },
                None => true,
            },
            _ => false,
        };
        if show_quality {
            let q = match file {
                Some(f) => f.settings.quality,
                None => 85,
            };
            proof {
                let w = crate::models::slider_width(slider_width as nat);
                assert(q as nat * w <= 255 * 65535) by (nonlinear_arith)
                    requires
                        q <= 255,
                        w <= 65535,
                ;
            }
            let slider = create_quality_slider(q, slider_width);
            push_line(lines, setting("Quality", slider, on && self.setting_option == SettingOption::Quality));
        }
        proof {
            let m = self.model();
            assert(after_head =~= start + seq![
                LineView::Blank,
                setting_line(
                    m,
                    "Format"@,
                    match m.global_output_format {
                        Some(f) => f.label(),
                        None => "Same"@,
                    },
                    SettingOption::Format,
                ),
            ]);
        }
    }

    fn panel_middle(&self, file: Option<&ImageFile>, lines: &mut Vec<PanelLine>)
        requires
            self.wf(),
            opt_ref(file) == sel_file(self.model()),
        ensures
            ({
                let m = self.model();
                let fs = sel_file(m);
                let format = match m.global_output_format {
                    Some(f) => f,
                    None => OutputFormat::Same,
                };
                line_views(final(lines)@) == line_views(old(lines)@) + seq![
                    setting_line(m, "Color"@, file_text(fs, |f: ImageFile| color_label(f.settings.color_space), "RGB"@), SettingOption::Color),
                    setting_line(
                        m,
                        "EXIF"@,
                        file_text(fs, |f: ImageFile| if f.settings.remove_exif { "Remove"@ } else { "Keep"@ }, "Keep"@),
                        SettingOption::Exif,
                    ),
                ] + (if format == OutputFormat::Png {
                    seq![
                        LineView::Blank,
                        setting_line(
                            m,
                            "Progressive"@,
                            file_text(fs, |f: ImageFile| if f.settings.progressive { "Yes"@ } else { "No"@ }, "No"@),
                            SettingOption::Progressive,
                        ),
                        setting_line(
                            m,
                            "PNG Comp"@,
                            file_text(fs, |f: ImageFile| decimal(f.settings.png_compression as nat), "6"@),
                            SettingOption::PngCompress,
                        ),
                    ]
                } else {
                    Seq::empty()
                })
            }),
    {
        let ghost start = line_views(lines@);
        let on = self.focused_column == FocusedColumn::ImageSettings;
        let color = match file {
            Some(f) => f.settings.color_space.as_str(),
            None => "RGB",
        };
        push_line(lines, setting("Color", color.to_string(), on && self.setting_option == SettingOption::Color));
        let exif = match file {
            Some(f) => yes_no(f.settings.remove_exif, "Remove", "Keep"),
            None => "Keep".to_string(),
        };
        push_line(lines, setting("EXIF", exif, on && self.setting_option == SettingOption::Exif));
        let ghost after_basic = line_views(lines@);
        let format = match self.global_output_format {
            Some(f) => f,
            None => OutputFormat::Same,
        };
        if format == OutputFormat::Png {
            push_line(lines, PanelLine::Blank);
            let prog = match file {
                Some(f) => yes_no(f.settings.progressive, "Yes", "No"),
                None => "No".to_string(),
            };
            push_line(lines, setting("Progressive", prog, on && self.setting_option == SettingOption::Progressive));
            let level = match file {
                Some(f) => crate::text::u64_to_string(f.settings.png_compression as u64),
                None => "6".to_string(),
            };
            push_line(lines, setting("PNG Comp", level, on && self.setting_option == SettingOption::PngCompress));
        }
        proof {
            let m = self.model();
            let fs = sel_file(m);
            assert(after_basic =~= start + seq![
                setting_line(m, "Color"@, file_text(fs, |f: ImageFile| color_label(f.settings.color_space), "RGB"@), SettingOption::Color),
                setting_line(
                    m,
                    "EXIF"@,
                    file_text(fs, |f: ImageFile| if f.settings.remove_exif { "Remove"@ } else { "Keep"@ }, "Keep"@),
                    SettingOption::Exif,
                ),
            ]);
        }
    }

    fn panel_bottom(&self, file: Option<&ImageFile>, home: Option<&str>, lines: &mut Vec<PanelLine>)
        requires
            self.wf(),
            opt_ref(file) == sel_file(self.model()),
        ensures
            ({
                let m = self.model();
                let fs = sel_file(m);
                let hv = match home {
                    Some(h) => Some(h@),
                    None => None,
                };
                line_views(final(lines)@) == line_views(old(lines)@) + seq![
                    LineView::Blank,
                    setting_line(
                        m,
                        "Max Width"@,
                        limit_text(m.width_input, match fs { Some(f) => f.settings.max_width, None => None }),
                        SettingOption::MaxWidth,
                    ),
                    setting_line(
                        m,
                        "Max Height"@,
                        limit_text(m.height_input, match fs { Some(f) => f.settings.max_height, None => None }),
                        SettingOption::MaxHeight,
                    ),
                    LineView::Blank,
                    setting_line(
                        m,
                        "Output"@,
                        file_text(fs, |f: ImageFile| if f.settings.overwrite { "Overwrite"@ } else { "New file"@ }, "Overwrite"@),
                        SettingOption::Overwrite,
                    ),
                    setting_line(
                        m,
                        "Backup"@,
                        file_text(fs, |f: ImageFile| if f.settings.backup { "Yes"@ } else { "No"@ }, "No"@),
                        SettingOption::Backup,
                    ),
                    LineView::Blank,
                    setting_line(m, "Output Dir"@, dir_text(m, hv), SettingOption::OutputDir),
                ] + (if m.input_mode {
                    seq![LineView::Typing(m.input_buffer), LineView::TypingHint]
                } else {
                    Seq::empty()
                })
            }),
    {
        let ghost start = line_views(lines@);
        let on = self.focused_column == FocusedColumn::ImageSettings;
        push_line(lines, PanelLine::Blank);
        let mw = match file {
            Some(f) => f.settings.max_width,
            None => None,
        };
        push_line(lines, setting("Max Width", limit_value(&self.width_input, mw), on && self.setting_option == SettingOption::MaxWidth));
        let mh = match file {
            Some(f) => f.settings.max_height,
            None => None,
        };
        push_line(lines, setting("Max Height", limit_value(&self.height_input, mh), on && self.setting_option == SettingOption::MaxHeight));
        push_line(lines, PanelLine::Blank);
        let ow = match file {
            Some(f) => yes_no(f.settings.overwrite, "Overwrite", "New file"),
            None => "Overwrite".to_string(),
        };
        push_line(lines, setting("Output", ow, on && self.setting_option == SettingOption::Overwrite));
        let bk = match file {
            Some(f) => yes_no(f.settings.backup, "Yes", "No"),
            None => "No".to_string(),
        };
        push_line(lines, setting("Backup", bk, on && self.setting_option == SettingOption::Backup));
        push_line(lines, PanelLine::Blank);
        let dir = if self.input_mode && self.input_target == SettingOption::OutputDir {
            if self.input_buffer.as_str().is_empty() {
                "New Path".to_string()
            } else {
                let mut s = self.input_buffer.clone();
                push_char(&mut s, '▌');
                s
            }
        } else {
            match &self.global_output_directory {
                Some(d) => path_to_tilde(d, home),
                None => "Same as source".to_string(),
            }
        };
        push_line(lines, setting("Output Dir", dir, on && self.setting_option == SettingOption::OutputDir));
        let ghost after_dir = line_views(lines@);
        if self.input_mode {
            push_line(lines, PanelLine::Typing(self.input_buffer.clone()));
            push_line(lines, PanelLine::TypingHint);
        }
    }

    /// The lines of the settings panel. `slider_width` is the width left
    /// for the quality slider; `home` abbreviates the output directory.
    pub fn settings_panel_lines(&self, slider_width: usize, home: Option<&str>) -> (lines: Vec<PanelLine>)
        requires
            self.wf(),
            slider_width <= 0xFFFF,
        ensures
            line_views(lines@) == settings_panel(
                self.model(),
                match home {
                    Some(h) => Some(h@),
                    None => None,
                },
                slider_width as nat,
            ),
    {
        let file = self.selected_file();
        let mut lines: Vec<PanelLine> = Vec::new();
        proof {
            assert(line_views(lines@) =~= Seq::<LineView>::empty());
        }
        self.panel_head(file, slider_width, &mut lines);
        self.panel_middle(file, &mut lines);
        self.panel_bottom(file, home, &mut lines);
        proof {
            let hv = match home {
                Some(h) => Some(h@),
                None => None,
            };
            assert(line_views(lines@) =~= settings_panel(self.model(), hv, slider_width as nat));
        }
        lines
    }
}

} // verus!
