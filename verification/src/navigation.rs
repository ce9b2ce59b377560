//! The settings panel: which settings are shown for the chosen output
//! format, and how the cursor moves between them.
use vstd::prelude::*;
use crate::models::{lower_extension, ImageFile, OutputFormat};
use crate::text::str_eq;

verus! {

/// The column that has the keyboard focus.
#[derive(Clone, Copy, Debug, PartialEq, Eq, Structural)]
pub enum FocusedColumn {
    Files,
    ImageSettings,
    Output,
}

/// The entries of the settings panel.
#[derive(Clone, Copy, Debug, PartialEq, Eq, Hash, Structural)]
pub enum SettingOption {
    Quality,
    Color,
    Exif,
    Format,
    Progressive,
    MaxWidth,
    MaxHeight,
    PngCompress,
    WebpLossless,
    Overwrite,
    Backup,
    OutputDir,
}

/// Whether the WebP mode entry is shown: only for WebP output.
pub open spec fn webp_shown(format: Option<OutputFormat>) -> bool {
    format == Some(OutputFormat::Webp)
}

/// Whether the progressive and PNG compression entries are shown: only for PNG output.
pub open spec fn progressive_shown(format: Option<OutputFormat>) -> bool {
    format == Some(OutputFormat::Png)
}

/// Whether the quality entry is shown, as the settings panel draws it: for
/// the default and JPEG output; for WebP when the selected file is lossy
/// (not with no file selected); for `Same` when the selected file is a JPEG
/// or WebP (or no file is selected). PNG output has no quality setting.
pub open spec fn quality_shown(format: Option<OutputFormat>, file_ext: Option<Option<Seq<char>>>, file_lossless: bool) -> bool {
    match format {
        None => true,
        Some(OutputFormat::Jpeg) => true,
        Some(OutputFormat::Webp) => match file_ext {
            Some(_) => !file_lossless,
            None => false,
        },
        Some(OutputFormat::Same) => match file_ext {
            Some(Some(e)) => e == "jpg"@ || e == "jpeg"@ || e == "webp"@,
            Some(None) => false,
            None => true,
        },
        _ => false,
    }
}

/// The file behind an optional reference.
pub open spec fn opt_file(file: Option<&ImageFile>) -> Option<ImageFile> {
    match file {
        Some(f) => Some(*f),
        None => None,
    }
}

/// `quality_shown` for an optional selected file.
pub open spec fn quality_shown_for(format: Option<OutputFormat>, file: Option<ImageFile>) -> bool {
    match file {
        Some(f) => quality_shown(format, Some(lower_extension(f.path@)), f.settings.webp_lossless),
        None => quality_shown(format, None, false),
    }
}

pub fn show_webp_setting(format: Option<OutputFormat>) -> (b: bool)
    ensures
        b == webp_shown(format),
{
    format == Some(OutputFormat::Webp)
}

pub fn show_progressive_setting(format: Option<OutputFormat>) -> (b: bool)
    ensures
        b == progressive_shown(format),
{
    format == Some(OutputFormat::Png)
}

pub fn show_quality_setting(format: Option<OutputFormat>, file: Option<&ImageFile>) -> (b: bool)
    ensures
        b == quality_shown_for(format, opt_file(file)),
{
    match format {
        None | Some(OutputFormat::Jpeg) => true,
        Some(OutputFormat::Webp) => match file {
            Some(f) => !f.settings.webp_lossless,
            None => false,
        },
        Some(OutputFormat::Same) => match file {
            Some(f) => match f.extension() {
                Some(e) => str_eq(&e, "jpg") || str_eq(&e, "jpeg") || str_eq(&e, "webp"),
                None => false,
            },
            None => true,
        },
        _ => false,
    }
}

/// Whether an entry is shown, given which optional entries are.
pub open spec fn shown(o: SettingOption, q: bool, w: bool, p: bool) -> bool {
    match o {
        SettingOption::Quality => q,
        SettingOption::WebpLossless => w,
        SettingOption::Progressive => p,
        SettingOption::PngCompress => p,
        _ => true,
    }
}

/// The entry the cursor moves to with Down, skipping hidden entries.
pub open spec fn down_from(o: SettingOption, q: bool, w: bool, p: bool) -> SettingOption {
    match o {
        SettingOption::Format => if w {
            SettingOption::WebpLossless
        } else if q {
            SettingOption::Quality
        } else {
            SettingOption::Color
        },
        SettingOption::WebpLossless => if q {
            SettingOption::Quality
        } else {
            SettingOption::Color
        },
        SettingOption::Quality => SettingOption::Color,
        SettingOption::Color => SettingOption::Exif,
        SettingOption::Exif => if p {
            SettingOption::Progressive
        } else {
            SettingOption::MaxWidth
        },
        SettingOption::Progressive => SettingOption::PngCompress,
        SettingOption::PngCompress => SettingOption::MaxWidth,
        SettingOption::MaxWidth => SettingOption::MaxHeight,
        SettingOption::MaxHeight => SettingOption::Overwrite,
        SettingOption::Overwrite => SettingOption::Backup,
        SettingOption::Backup => SettingOption::OutputDir,
        SettingOption::OutputDir => SettingOption::Format,
    }
}

/// The entry the cursor moves to with Up, skipping hidden entries.
pub open spec fn up_from(o: SettingOption, q: bool, w: bool, p: bool) -> SettingOption {
    match o {
        SettingOption::Quality => if w {
            SettingOption::WebpLossless
        } else {
            SettingOption::Format
        },
        SettingOption::Color => if q {
            SettingOption::Quality
        } else if w {
            SettingOption::WebpLossless
        } else {
            SettingOption::Format
        },
        SettingOption::Exif => SettingOption::Color,
        SettingOption::Format => SettingOption::OutputDir,
        SettingOption::WebpLossless => SettingOption::Format,
        SettingOption::Progressive => SettingOption::Exif,
        SettingOption::PngCompress => SettingOption::Progressive,
        SettingOption::MaxWidth => if p {
            SettingOption::PngCompress
        } else {
            SettingOption::Exif
        },
        SettingOption::MaxHeight => SettingOption::MaxWidth,
        SettingOption::Overwrite => SettingOption::MaxHeight,
        SettingOption::Backup => SettingOption::Overwrite,
        SettingOption::OutputDir => SettingOption::Backup,
    }
}

/// The entry below `current` for the given output format and selected file.
pub fn next_setting_down(current: SettingOption, format: Option<OutputFormat>, file: Option<&ImageFile>) -> (o: SettingOption)
    ensures
        o == down_from(current, quality_shown_for(format, opt_file(file)), webp_shown(format), progressive_shown(format)),
{
    let from_quality = show_quality_setting(format, file);
    let from_webp = show_webp_setting(format);
    let from_progressive = show_progressive_setting(format);
    match current {
        SettingOption::Format => if from_webp {
            SettingOption::WebpLossless
        } else if from_quality {
            SettingOption::Quality
        } else {
            SettingOption::Color
        },
        SettingOption::WebpLossless => if from_quality {
            SettingOption::Quality
        } else {
            SettingOption::Color
        },
        SettingOption::Quality => SettingOption::Color,
        SettingOption::Color => SettingOption::Exif,
        SettingOption::Exif => if from_progressive {
            SettingOption::Progressive
        } else {
            SettingOption::MaxWidth
        },
        SettingOption::Progressive => SettingOption::PngCompress,
        SettingOption::PngCompress => SettingOption::MaxWidth,
        SettingOption::MaxWidth => SettingOption::MaxHeight,
        SettingOption::MaxHeight => SettingOption::Overwrite,
        SettingOption::Overwrite => SettingOption::Backup,
        SettingOption::Backup => SettingOption::OutputDir,
        SettingOption::OutputDir => SettingOption::Format,
    }
}

/// The entry above `current` for the given output format and selected file.
pub fn next_setting_up(current: SettingOption, format: Option<OutputFormat>, file: Option<&ImageFile>) -> (o: SettingOption)
    ensures
        o == up_from(current, quality_shown_for(format, opt_file(file)), webp_shown(format), progressive_shown(format)),
{
    let from_quality = show_quality_setting(format, file);
    let from_webp = show_webp_setting(format);
    let from_progressive = show_progressive_setting(format);
    match current {
        SettingOption::Quality => if from_webp {
            SettingOption::WebpLossless
        } else {
            SettingOption::Format
        },
        SettingOption::Color => if from_quality {
            SettingOption::Quality
        } else if from_webp {
            SettingOption::WebpLossless
        } else {
            SettingOption::Format
        },
        SettingOption::Exif => SettingOption::Color,
        SettingOption::Format => SettingOption::OutputDir,
        SettingOption::WebpLossless => SettingOption::Format,
        SettingOption::Progressive => SettingOption::Exif,
        SettingOption::PngCompress => SettingOption::Progressive,
        SettingOption::MaxWidth => if from_progressive {
            SettingOption::PngCompress
        } else {
            SettingOption::Exif
        },
        SettingOption::MaxHeight => SettingOption::MaxWidth,
        SettingOption::Overwrite => SettingOption::MaxHeight,
        SettingOption::Backup => SettingOption::Overwrite,
        SettingOption::OutputDir => SettingOption::Backup,
    }
}

/// Up and Down are inverse moves among the shown entries, and neither leaves
/// them: from a shown entry, Down then Up (or Up then Down) comes back to it.
/// WebP and PNG output are never both chosen.
pub proof fn law_navigation_inverse(o: SettingOption, q: bool, w: bool, p: bool)
    requires
        shown(o, q, w, p),
        !(w && p),
    ensures
        shown(down_from(o, q, w, p), q, w, p),
        shown(up_from(o, q, w, p), q, w, p),
        up_from(down_from(o, q, w, p), q, w, p) == o,
        down_from(up_from(o, q, w, p), q, w, p) == o,
{
}

/// The entry reached after `n` presses of Down.
pub open spec fn down_n(o: SettingOption, n: nat, q: bool, w: bool, p: bool) -> SettingOption
    decreases n,
{
    if n == 0 {
        o
    } else {
        down_from(down_n(o, (n - 1) as nat, q, w, p), q, w, p)
    }
}

/// Number of entries shown.
pub open spec fn shown_count(q: bool, w: bool, p: bool) -> nat {
    8 + (if q {
        1nat
    } else {
        0
    }) + (if w {
        1nat
    } else {
        0
    }) + (if p {
        2nat
    } else {
        0
    })
}

/// Pressing Down from Format visits every shown entry once and comes back
/// to Format after exactly as many presses as there are shown entries.
proof fn lemma_cycle_q_w_np(q: bool, w: bool, p: bool)
    requires
        q == true,
        w == true,
        p == false,
    ensures
        down_n(SettingOption::Format, 10, q, w, p) == SettingOption::Format,
        forall|k: nat| 0 < k < 10 ==> #[trigger] down_n(SettingOption::Format, k, q, w, p) != SettingOption::Format,
{
    assert(down_n(SettingOption::Format, 0, q, w, p) == SettingOption::Format);
    assert(down_n(SettingOption::Format, 1, q, w, p) == SettingOption::WebpLossless);
    assert(down_n(SettingOption::Format, 2, q, w, p) == SettingOption::Quality);
    assert(down_n(SettingOption::Format, 3, q, w, p) == SettingOption::Color);
    assert(down_n(SettingOption::Format, 4, q, w, p) == SettingOption::Exif);
    assert(down_n(SettingOption::Format, 5, q, w, p) == SettingOption::MaxWidth);
    assert(down_n(SettingOption::Format, 6, q, w, p) == SettingOption::MaxHeight);
    assert(down_n(SettingOption::Format, 7, q, w, p) == SettingOption::Overwrite);
    assert(down_n(SettingOption::Format, 8, q, w, p) == SettingOption::Backup);
    assert(down_n(SettingOption::Format, 9, q, w, p) == SettingOption::OutputDir);
    assert(down_n(SettingOption::Format, 10, q, w, p) == SettingOption::Format);
    assert forall|k: nat| 0 < k < 10 implies #[trigger] down_n(SettingOption::Format, k, q, w, p) != SettingOption::Format by {
        if k == 1 {}
        if k == 2 {}
        if k == 3 {}
        if k == 4 {}
        if k == 5 {}
        if k == 6 {}
        if k == 7 {}
        if k == 8 {}
        if k == 9 {}
    }
}

proof fn lemma_cycle_q_nw_p(q: bool, w: bool, p: bool)
    requires
        q == true,
        w == false,
        p == true,
    ensures
        down_n(SettingOption::Format, 11, q, w, p) == SettingOption::Format,
        forall|k: nat| 0 < k < 11 ==> #[trigger] down_n(SettingOption::Format, k, q, w, p) != SettingOption::Format,
{
    assert(down_n(SettingOption::Format, 0, q, w, p) == SettingOption::Format);
    assert(down_n(SettingOption::Format, 1, q, w, p) == SettingOption::Quality);
    assert(down_n(SettingOption::Format, 2, q, w, p) == SettingOption::Color);
    assert(down_n(SettingOption::Format, 3, q, w, p) == SettingOption::Exif);
    assert(down_n(SettingOption::Format, 4, q, w, p) == SettingOption::Progressive);
    assert(down_n(SettingOption::Format, 5, q, w, p) == SettingOption::PngCompress);
    assert(down_n(SettingOption::Format, 6, q, w, p) == SettingOption::MaxWidth);
    assert(down_n(SettingOption::Format, 7, q, w, p) == SettingOption::MaxHeight);
    assert(down_n(SettingOption::Format, 8, q, w, p) == SettingOption::Overwrite);
    assert(down_n(SettingOption::Format, 9, q, w, p) == SettingOption::Backup);
    assert(down_n(SettingOption::Format, 10, q, w, p) == SettingOption::OutputDir);
    assert(down_n(SettingOption::Format, 11, q, w, p) == SettingOption::Format);
    assert forall|k: nat| 0 < k < 11 implies #[trigger] down_n(SettingOption::Format, k, q, w, p) != SettingOption::Format by {
        if k == 1 {}
        if k == 2 {}
        if k == 3 {}
        if k == 4 {}
        if k == 5 {}
        if k == 6 {}
        if k == 7 {}
        if k == 8 {}
        if k == 9 {}
        if k == 10 {}
    }
}

proof fn lemma_cycle_q_nw_np(q: bool, w: bool, p: bool)
    requires
        q == true,
        w == false,
        p == false,
    ensures
        down_n(SettingOption::Format, 9, q, w, p) == SettingOption::Format,
        forall|k: nat| 0 < k < 9 ==> #[trigger] down_n(SettingOption::Format, k, q, w, p) != SettingOption::Format,
{
    assert(down_n(SettingOption::Format, 0, q, w, p) == SettingOption::Format);
    assert(down_n(SettingOption::Format, 1, q, w, p) == SettingOption::Quality);
    assert(down_n(SettingOption::Format, 2, q, w, p) == SettingOption::Color);
    assert(down_n(SettingOption::Format, 3, q, w, p) == SettingOption::Exif);
    assert(down_n(SettingOption::Format, 4, q, w, p) == SettingOption::MaxWidth);
    assert(down_n(SettingOption::Format, 5, q, w, p) == SettingOption::MaxHeight);
    assert(down_n(SettingOption::Format, 6, q, w, p) == SettingOption::Overwrite);
    assert(down_n(SettingOption::Format, 7, q, w, p) == SettingOption::Backup);
    assert(down_n(SettingOption::Format, 8, q, w, p) == SettingOption::OutputDir);
    assert(down_n(SettingOption::Format, 9, q, w, p) == SettingOption::Format);
    assert forall|k: nat| 0 < k < 9 implies #[trigger] down_n(SettingOption::Format, k, q, w, p) != SettingOption::Format by {
        if k == 1 {}
        if k == 2 {}
        if k == 3 {}
        if k == 4 {}
        if k == 5 {}
        if k == 6 {}
        if k == 7 {}
        if k == 8 {}
    }
}

proof fn lemma_cycle_nq_w_np(q: bool, w: bool, p: bool)
    requires
        q == false,
        w == true,
        p == false,
    ensures
        down_n(SettingOption::Format, 9, q, w, p) == SettingOption::Format,
        forall|k: nat| 0 < k < 9 ==> #[trigger] down_n(SettingOption::Format, k, q, w, p) != SettingOption::Format,
{
    assert(down_n(SettingOption::Format, 0, q, w, p) == SettingOption::Format);
    assert(down_n(SettingOption::Format, 1, q, w, p) == SettingOption::WebpLossless);
    assert(down_n(SettingOption::Format, 2, q, w, p) == SettingOption::Color);
    assert(down_n(SettingOption::Format, 3, q, w, p) == SettingOption::Exif);
    assert(down_n(SettingOption::Format, 4, q, w, p) == SettingOption::MaxWidth);
    assert(down_n(SettingOption::Format, 5, q, w, p) == SettingOption::MaxHeight);
    assert(down_n(SettingOption::Format, 6, q, w, p) == SettingOption::Overwrite);
    assert(down_n(SettingOption::Format, 7, q, w, p) == SettingOption::Backup);
    assert(down_n(SettingOption::Format, 8, q, w, p) == SettingOption::OutputDir);
    assert(down_n(SettingOption::Format, 9, q, w, p) == SettingOption::Format);
    assert forall|k: nat| 0 < k < 9 implies #[trigger] down_n(SettingOption::Format, k, q, w, p) != SettingOption::Format by {
        if k == 1 {}
        if k == 2 {}
        if k == 3 {}
        if k == 4 {}
        if k == 5 {}
        if k == 6 {}
        if k == 7 {}
        if k == 8 {}
    }
}

proof fn lemma_cycle_nq_nw_p(q: bool, w: bool, p: bool)
    requires
        q == false,
        w == false,
        p == true,
    ensures
        down_n(SettingOption::Format, 10, q, w, p) == SettingOption::Format,
        forall|k: nat| 0 < k < 10 ==> #[trigger] down_n(SettingOption::Format, k, q, w, p) != SettingOption::Format,
{
    assert(down_n(SettingOption::Format, 0, q, w, p) == SettingOption::Format);
    assert(down_n(SettingOption::Format, 1, q, w, p) == SettingOption::Color);
    assert(down_n(SettingOption::Format, 2, q, w, p) == SettingOption::Exif);
    assert(down_n(SettingOption::Format, 3, q, w, p) == SettingOption::Progressive);
    assert(down_n(SettingOption::Format, 4, q, w, p) == SettingOption::PngCompress);
    assert(down_n(SettingOption::Format, 5, q, w, p) == SettingOption::MaxWidth);
    assert(down_n(SettingOption::Format, 6, q, w, p) == SettingOption::MaxHeight);
    assert(down_n(SettingOption::Format, 7, q, w, p) == SettingOption::Overwrite);
    assert(down_n(SettingOption::Format, 8, q, w, p) == SettingOption::Backup);
    assert(down_n(SettingOption::Format, 9, q, w, p) == SettingOption::OutputDir);
    assert(down_n(SettingOption::Format, 10, q, w, p) == SettingOption::Format);
    assert forall|k: nat| 0 < k < 10 implies #[trigger] down_n(SettingOption::Format, k, q, w, p) != SettingOption::Format by {
        if k == 1 {}
        if k == 2 {}
        if k == 3 {}
        if k == 4 {}
        if k == 5 {}
        if k == 6 {}
        if k == 7 {}
        if k == 8 {}
        if k == 9 {}
    }
}

proof fn lemma_cycle_nq_nw_np(q: bool, w: bool, p: bool)
    requires
        q == false,
        w == false,
        p == false,
    ensures
        down_n(SettingOption::Format, 8, q, w, p) == SettingOption::Format,
        forall|k: nat| 0 < k < 8 ==> #[trigger] down_n(SettingOption::Format, k, q, w, p) != SettingOption::Format,
{
    assert(down_n(SettingOption::Format, 0, q, w, p) == SettingOption::Format);
    assert(down_n(SettingOption::Format, 1, q, w, p) == SettingOption::Color);
    assert(down_n(SettingOption::Format, 2, q, w, p) == SettingOption::Exif);
    assert(down_n(SettingOption::Format, 3, q, w, p) == SettingOption::MaxWidth);
    assert(down_n(SettingOption::Format, 4, q, w, p) == SettingOption::MaxHeight);
    assert(down_n(SettingOption::Format, 5, q, w, p) == SettingOption::Overwrite);
    assert(down_n(SettingOption::Format, 6, q, w, p) == SettingOption::Backup);
    assert(down_n(SettingOption::Format, 7, q, w, p) == SettingOption::OutputDir);
    assert(down_n(SettingOption::Format, 8, q, w, p) == SettingOption::Format);
    assert forall|k: nat| 0 < k < 8 implies #[trigger] down_n(SettingOption::Format, k, q, w, p) != SettingOption::Format by {
        if k == 1 {}
        if k == 2 {}
        if k == 3 {}
        if k == 4 {}
        if k == 5 {}
        if k == 6 {}
        if k == 7 {}
    }
}

/// Pressing Down from the format entry never returns to it before every
/// shown entry has had its turn, and returns to it after exactly as many
/// presses as entries are shown (WebP and PNG output are never both chosen).
pub proof fn law_navigation_cycle(q: bool, w: bool, p: bool)
    requires
        !(w && p),
    ensures
        down_n(SettingOption::Format, shown_count(q, w, p), q, w, p) == SettingOption::Format,
        forall|k: nat|
            0 < k < shown_count(q, w, p) ==> #[trigger] down_n(SettingOption::Format, k, q, w, p)
                != SettingOption::Format,
{
    if q && w && !p {
        lemma_cycle_q_w_np(q, w, p);
    } else if q && !w && p {
        lemma_cycle_q_nw_p(q, w, p);
    } else if q && !w && !p {
        lemma_cycle_q_nw_np(q, w, p);
    } else if !q && w && !p {
        lemma_cycle_nq_w_np(q, w, p);
    } else if !q && !w && p {
        lemma_cycle_nq_nw_p(q, w, p);
    } else if !q && !w && !p {
        lemma_cycle_nq_nw_np(q, w, p);
    }
}

} // verus!
