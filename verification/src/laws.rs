//! Properties of the interface that span several key presses or events.
use vstd::prelude::*;
use crate::animation::{assembled, gif_animation, gif_delay, gif_frame_rgba};
use crate::batch::{completed_step, event_step, events_step, job_for, reload_after_run, CompressionJob};
use crate::compression::{encoder_for, CompressionEvent, Encoder, FileResult};
use crate::paths::joined_path;
use crate::picture::{picture_dims, Resampling};
use crate::models::{format_for_lower_ext, ColorSpace, ImageFile, ImageSettings, OutputFormat};
use crate::navigation::{
    law_navigation_inverse, progressive_shown, quality_shown_for, shown, webp_shown, FocusedColumn, SettingOption,
};
use crate::settings_panel::panel_quality_shown;
use crate::state::{
    clear_queue_step, color_left, color_right, commit_step, format_left, format_right, key_defined, key_step,
    left_settings, lemma_queued_indices_below, main_step, model_wf, nav_q, queued_indices, right_settings,
    sel_file, set_sel_settings, settings_pre_step, toggle_queue_step, typed_limit_step, AppModel, CompressionResult,
    Effect, Key,
};

verus! {

/// Left and Right step the colour setting the same way, through RGB, RGBA
/// and Grayscale, so three presses come back to the start.
pub proof fn law_color_cycle(c: ColorSpace)
    ensures
        color_left(c) == color_right(c),
        color_right(c) != c,
        color_right(color_right(color_right(c))) == c,
{
}

/// Left undoes Right on the batch format and the other way round (for
/// every choice the setting offers: none or a concrete format), and eight
/// presses of Right come back to the start.
pub proof fn law_format_cycle(f: Option<OutputFormat>)
    requires
        f != Some(OutputFormat::Same),
    ensures
        format_left(format_right(f)) == f,
        format_right(format_left(f)) == f,
        format_right(format_right(format_right(format_right(format_right(format_right(format_right(
            format_right(f),
        ))))))) == f,
{
}

proof fn lemma_queued_indices_contains(files: Seq<ImageFile>, j: int)
    requires
        0 <= j < files.len(),
        files.len() <= usize::MAX,
    ensures
        queued_indices(files).contains(j as usize) <==> files[j].queued,
    decreases files.len(),
{
    let q = queued_indices(files);
    let q0 = queued_indices(files.drop_last());
    let tail = if files.last().queued {
        seq![(files.len() - 1) as usize]
    } else {
        Seq::<usize>::empty()
    };
    assert(q == q0 + tail);
    lemma_queued_indices_below(files.drop_last());
    if j < files.len() - 1 {
        lemma_queued_indices_contains(files.drop_last(), j);
        assert(files.drop_last()[j] == files[j]);
        if q.contains(j as usize) {
            let t = choose|t: int| 0 <= t < q.len() && q[t] == j as usize;
            if t >= q0.len() {
                assert(q[t] == (files.len() - 1) as usize);
            } else {
                assert(q0[t] == j as usize);
            }
        }
        if q0.contains(j as usize) {
            let t = choose|t: int| 0 <= t < q0.len() && q0[t] == j as usize;
            assert(q[t] == j as usize);
        }
    } else {
        if files[j].queued {
            assert(q[q0.len() as int] == j as usize);
        } else {
            assert(q == q0);
            if q.contains(j as usize) {
                let t = choose|t: int| 0 <= t < q.len() && q[t] == j as usize;
                assert(q0[t] < files.len() - 1);
            }
        }
    }
}

/// Pressing Space twice on the same file gives back the file list and the
/// queue (when the queue lists exactly the files marked as queued, as the
/// interface keeps it).
pub proof fn law_toggle_queue_twice(m: AppModel)
    requires
        model_wf(m),
        m.queue == queued_indices(m.files),
    ensures
        toggle_queue_step(toggle_queue_step(m)).files == m.files,
        toggle_queue_step(toggle_queue_step(m)).queue == m.queue,
        toggle_queue_step(toggle_queue_step(m)).selected_index == m.selected_index,
{
    match m.selected_index {
        Some(i) => {
            let m1 = toggle_queue_step(m);
            let f = m.files[i as int];
            assert(m1.files[i as int] == ImageFile { queued: !f.queued, ..f });
            let m2 = toggle_queue_step(m1);
            assert(m2.files =~= m.files);
        },
        None => {},
    }
}

/// `C` leaves no file marked as queued and the queue empty (when the queue
/// lists exactly the files marked as queued).
pub proof fn law_clear_queue_unqueues_all(m: AppModel)
    requires
        model_wf(m),
        m.queue == queued_indices(m.files),
    ensures
        clear_queue_step(m).queue.len() == 0,
        clear_queue_step(m).files.len() == m.files.len(),
        forall|j: int| 0 <= j < m.files.len() ==> !(#[trigger] clear_queue_step(m).files[j]).queued,
{
    assert forall|j: int| 0 <= j < m.files.len() implies !(#[trigger] clear_queue_step(m).files[j]).queued by {
        lemma_queued_indices_contains(m.files, j);
    }
}

/// After a run whose output went next to the sources (no batch output
/// directory), the directory is read again.
pub proof fn law_refresh_after_run(m: AppModel, success_count: usize, total_saved: u64, results: Seq<FileResult>)
    requires
        m.global_output_directory is None,
    ensures
        reload_after_run(m),
        completed_step(m, success_count, total_saved, results).1 == seq![Effect::LoadDirectory],
{
}

/// Whatever came before, a run's last event (its completion or its
/// cancellation) leaves the interface free, with no progress shown and the
/// file list focused.
pub proof fn law_run_ends_idle(m: AppModel, evs: Seq<CompressionEvent>)
    requires
        evs.len() > 0,
        evs.last() is Completed || evs.last() is Cancelled,
    ensures
        !events_step(m, evs).0.compressing,
        events_step(m, evs).0.progress is None,
        events_step(m, evs).0.focused_column == FocusedColumn::Files,
{
}

proof fn lemma_commit_keeps_navigation(m: AppModel)
    requires
        model_wf(m),
    ensures
        model_wf(commit_step(m)),
        commit_step(m).global_output_format == m.global_output_format,
        commit_step(m).setting_option == m.setting_option,
        commit_step(m).focused_column == m.focused_column,
        commit_step(m).show_help == m.show_help,
        commit_step(m).compressing == m.compressing,
        commit_step(m).input_mode == m.input_mode,
        nav_q(commit_step(m)) == nav_q(m),
{
    match m.selected_index {
        Some(i) => {
            let f = m.files[i as int];
            let g = sel_file(commit_step(m)).unwrap();
            assert(g.path == f.path);
            assert(g.settings.webp_lossless == f.settings.webp_lossless);
        },
        None => {},
    }
}

/// On the settings panel, Up undoes Down and Down undoes Up: from a shown
/// entry, the two presses come back to it, and neither changes the output
/// format.
pub proof fn law_settings_up_undoes_down(m: AppModel, home: Option<Seq<char>>)
    requires
        model_wf(m),
        !m.show_help,
        !m.compressing,
        !m.input_mode,
        m.focused_column == FocusedColumn::ImageSettings,
        shown(m.setting_option, nav_q(m), webp_shown(m.global_output_format), progressive_shown(m.global_output_format)),
    ensures
        key_step(key_step(m, Key::Down, home).0, Key::Up, home).0.setting_option == m.setting_option,
        key_step(key_step(m, Key::Up, home).0, Key::Down, home).0.setting_option == m.setting_option,
        key_step(m, Key::Down, home).0.global_output_format == m.global_output_format,
        key_step(m, Key::Up, home).0.global_output_format == m.global_output_format,
        key_step(key_step(m, Key::Down, home).0, Key::Up, home).0.global_output_format == m.global_output_format,
        key_step(key_step(m, Key::Up, home).0, Key::Down, home).0.global_output_format == m.global_output_format,
{
    let q = nav_q(m);
    let w = webp_shown(m.global_output_format);
    let p = progressive_shown(m.global_output_format);
    law_navigation_inverse(m.setting_option, q, w, p);
    lemma_commit_keeps_navigation(m);
    let d = key_step(m, Key::Down, home).0;
    let u = key_step(m, Key::Up, home).0;
    assert(d == crate::state::AppModel { setting_option: crate::navigation::down_from(m.setting_option, q, w, p), ..commit_step(m) });
    assert(u == crate::state::AppModel { setting_option: crate::navigation::up_from(m.setting_option, q, w, p), ..commit_step(m) });
    lemma_commit_keeps_navigation(d);
    lemma_commit_keeps_navigation(u);
    assert(nav_q(d) == q) by {
        assert(sel_file(d) == sel_file(commit_step(m)));
    }
    assert(nav_q(u) == q) by {
        assert(sel_file(u) == sel_file(commit_step(m)));
    }
}

/// A file's settings within the ranges the panel offers: quality at most
/// 100, PNG level at most 9, size limits at most 10000.
pub open spec fn settings_in_bounds(st: ImageSettings) -> bool {
    &&& st.quality <= 100
    &&& st.png_compression <= 9
    &&& (st.max_width matches Some(w) ==> w <= 10000)
    &&& (st.max_height matches Some(h) ==> h <= 10000)
}

/// Every file's settings and the default quality within their ranges.
pub open spec fn bounds_kept(m: AppModel) -> bool {
    &&& m.default_quality <= 100
    &&& forall|j: int| 0 <= j < m.files.len() ==> settings_in_bounds(#[trigger] m.files[j].settings)
}

proof fn lemma_set_sel_in_bounds(m: AppModel, st: ImageSettings)
    requires
        model_wf(m),
        bounds_kept(m),
        settings_in_bounds(st),
    ensures
        bounds_kept(set_sel_settings(m, st)),
        model_wf(set_sel_settings(m, st)),
{
    let m1 = set_sel_settings(m, st);
    assert forall|j: int| 0 <= j < m1.files.len() implies settings_in_bounds(#[trigger] m1.files[j].settings) by {
        if m.selected_index is Some && j == m.selected_index.unwrap() as int {
        } else {
            assert(m1.files[j] == m.files[j]);
        }
    }
}

proof fn lemma_files_kept(m: AppModel, m1: AppModel)
    requires
        bounds_kept(m),
        m1.default_quality <= 100,
        m1.files.len() == m.files.len(),
        forall|j: int| 0 <= j < m.files.len() ==> (#[trigger] m1.files[j]).settings == m.files[j].settings,
    ensures
        bounds_kept(m1),
{
    assert forall|j: int| 0 <= j < m1.files.len() implies settings_in_bounds(#[trigger] m1.files[j].settings) by {
        assert(m1.files[j].settings == m.files[j].settings);
    }
}

proof fn lemma_commit_in_bounds(m: AppModel)
    requires
        model_wf(m),
        bounds_kept(m),
    ensures
        bounds_kept(commit_step(m)),
        model_wf(commit_step(m)),
{
    match m.selected_index {
        Some(i) => {
            let c = commit_step(m);
            assert(c.files.len() == m.files.len());
            assert forall|j: int| 0 <= j < c.files.len() implies settings_in_bounds(#[trigger] c.files[j].settings) by {
                if j != i as int {
                    assert(c.files[j] == m.files[j]);
                }
            }
        },
        None => {},
    }
}

proof fn lemma_main_in_bounds(m: AppModel, key: Key)
    requires
        model_wf(m),
        bounds_kept(m),
    ensures
        bounds_kept(main_step(m, key).0),
{
    let r = main_step(m, key).0;
    match m.selected_index {
        Some(i) => {
            let st = m.files[i as int].settings;
            assert(settings_in_bounds(st));
            lemma_set_sel_in_bounds(m, left_settings(m.setting_option, st));
            lemma_set_sel_in_bounds(m, right_settings(m.setting_option, st));
        },
        None => {},
    }
    if r.files != m.files {
        if key == Key::Char(' ') {
            match m.selected_index {
                Some(i) => {
                    assert forall|j: int| 0 <= j < m.files.len() implies (#[trigger] r.files[j]).settings
                        == m.files[j].settings by {
                        if j != i as int {
                            assert(r.files[j] == m.files[j]);
                        }
                    }
                },
                None => {},
            }
            lemma_files_kept(m, r);
        } else if key == Key::Char('C') {
            lemma_files_kept(m, r);
        }
    }
}

/// Whatever key is pressed, every file's quality stays at most 100, its
/// PNG level at most 9 and its size limits at most 10000, and the default
/// quality at most 100, when they were so before.
pub proof fn law_settings_stay_in_bounds(m: AppModel, key: Key, home: Option<Seq<char>>)
    requires
        model_wf(m),
        bounds_kept(m),
    ensures
        bounds_kept(key_step(m, key, home).0),
{
    if m.show_help || m.compressing {
    } else if m.input_mode {
        if key == Key::Enter && (m.input_target == SettingOption::MaxWidth || m.input_target
            == SettingOption::MaxHeight) && m.selected_index is Some {
            let t = typed_limit_step(m);
            let i = m.selected_index.unwrap();
            assert forall|j: int| 0 <= j < t.files.len() implies settings_in_bounds(#[trigger] t.files[j].settings) by {
                if j != i as int {
                    assert(t.files[j] == m.files[j]);
                }
            }
        }
    } else {
        let (m1, used) = settings_pre_step(m, key);
        lemma_commit_in_bounds(m);
        if !used {
            lemma_main_in_bounds(m1, key);
        }
    }
}

/// The settings cursor can rest on the quality entry exactly when the
/// settings panel draws the quality row.
pub proof fn law_quality_entry_drawn(format: Option<OutputFormat>, file: Option<ImageFile>)
    ensures
        quality_shown_for(format, file) == panel_quality_shown(format, file),
{
}

/// The selected entry lies in the rows on screen.
pub open spec fn selection_on_screen(m: AppModel) -> bool {
    match m.selected_index {
        Some(i) => m.scroll_offset <= i && i < m.scroll_offset + m.visible_rows,
        None => true,
    }
}

/// Moving through the file list (Up, Down, Page Up, Page Down, Home, End)
/// keeps the selected entry among the rows on screen, when it was there
/// and the list is not empty; Up and Down move by one entry and stop at the
/// ends, the page keys by a screenful, Home and End to the first and last.
pub proof fn law_selection_stays_on_screen(m: AppModel, key: Key, home: Option<Seq<char>>)
    requires
        model_wf(m),
        !m.show_help,
        !m.compressing,
        !m.input_mode,
        m.focused_column == FocusedColumn::Files,
        m.files.len() > 0,
        m.selected_index is Some,
        m.visible_rows >= 1,
        selection_on_screen(m),
        key == Key::Up || key == Key::Down || key == Key::PageUp || key == Key::PageDown || key
            == Key::Home || key == Key::End,
        key_defined(m, key, home),
    ensures
        selection_on_screen(key_step(m, key, home).0),
        key_step(m, key, home).0.selected_index is Some,
        ({
            let i = m.selected_index.unwrap();
            let last = (m.files.len() - 1) as usize;
            let j = key_step(m, key, home).0.selected_index.unwrap();
            &&& key == Key::Up ==> j == (if i > 0 { (i - 1) as usize } else { i })
            &&& key == Key::Down ==> j == (if i < last { (i + 1) as usize } else { i })
            &&& key == Key::PageUp ==> j == (if i >= m.visible_rows { (i - m.visible_rows) as usize } else { 0 })
            &&& key == Key::PageDown ==> j == (if i + m.visible_rows < last { (i + m.visible_rows) as usize } else { last })
            &&& key == Key::Home ==> j == 0
            &&& key == Key::End ==> j == last
        }),
{
}


/// The encoder that writes a concrete format.
pub open spec fn writer_of(f: OutputFormat) -> Option<Encoder> {
    match f {
        OutputFormat::Jpeg => Some(Encoder::Jpeg),
        OutputFormat::Png => Some(Encoder::Png),
        OutputFormat::Webp => Some(Encoder::Webp),
        OutputFormat::Gif => Some(Encoder::Gif),
        OutputFormat::Tiff => Some(Encoder::Tiff),
        OutputFormat::Bmp => Some(Encoder::Bmp),
        OutputFormat::Tga => Some(Encoder::Tga),
        OutputFormat::Same => None,
    }
}

/// A file kept in its own format is written by the encoder of the format
/// its lowercase extension names (every supported extension gets one, an
/// unknown one gets none); a concrete target format decides the encoder
/// whatever the source extension is.
pub proof fn law_encoder_follows_format(target: OutputFormat, ext: Option<Seq<char>>)
    ensures
        target == OutputFormat::Same ==> encoder_for(target, ext) == match ext {
            Some(e) => match format_for_lower_ext(e) {
                Some(f) => writer_of(f),
                None => None,
            },
            None => None,
        },
        target != OutputFormat::Same ==> encoder_for(target, ext) == writer_of(target),
        encoder_for(OutputFormat::Same, Some("jpg"@)) == Some(Encoder::Jpeg),
        encoder_for(OutputFormat::Same, Some("jpeg"@)) == Some(Encoder::Jpeg),
        encoder_for(OutputFormat::Same, Some("png"@)) == Some(Encoder::Png),
        encoder_for(OutputFormat::Same, Some("webp"@)) == Some(Encoder::Webp),
        encoder_for(OutputFormat::Same, Some("gif"@)) == Some(Encoder::Gif),
        encoder_for(OutputFormat::Same, Some("tif"@)) == Some(Encoder::Tiff),
        encoder_for(OutputFormat::Same, Some("tiff"@)) == Some(Encoder::Tiff),
        encoder_for(OutputFormat::Same, Some("bmp"@)) == Some(Encoder::Bmp),
        encoder_for(OutputFormat::Same, Some("tga"@)) == Some(Encoder::Tga),
{
    reveal_strlit("jpg");
    reveal_strlit("jpeg");
    reveal_strlit("png");
    reveal_strlit("webp");
    reveal_strlit("gif");
    reveal_strlit("tif");
    reveal_strlit("tiff");
    reveal_strlit("bmp");
    reveal_strlit("tga");
    assert("png"@[0] != "jpg"@[0] && "png"@[0] != "jpeg"@[0]);
    assert("webp"@[0] != "jpg"@[0] && "webp"@[0] != "jpeg"@[0] && "webp"@[0] != "png"@[0]);
    assert("gif"@[0] != "jpg"@[0] && "gif"@[0] != "jpeg"@[0] && "gif"@[0] != "png"@[0] && "gif"@[0]
        != "webp"@[0]);
    assert("tif"@.len() != "tiff"@.len());
    assert("tif"@[0] != "jpg"@[0] && "tif"@[0] != "jpeg"@[0] && "tif"@[0] != "png"@[0] && "tif"@[0]
        != "webp"@[0] && "tif"@[0] != "gif"@[0]);
    assert("tiff"@[0] != "jpg"@[0] && "tiff"@[0] != "jpeg"@[0] && "tiff"@[0] != "png"@[0] && "tiff"@[0]
        != "webp"@[0] && "tiff"@[0] != "gif"@[0]);
    assert("bmp"@[0] != "jpg"@[0] && "bmp"@[0] != "jpeg"@[0] && "bmp"@[0] != "png"@[0] && "bmp"@[0]
        != "webp"@[0] && "bmp"@[0] != "gif"@[0] && "bmp"@[0] != "tif"@[0] && "bmp"@[0] != "tiff"@[0]);
    assert("tga"@[1] != "jpg"@[1] && "tga"@[0] != "jpeg"@[0] && "tga"@[0] != "png"@[0] && "tga"@[0]
        != "webp"@[0] && "tga"@[0] != "gif"@[0] && "tga"@[1] != "tif"@[1] && "tga"@[1] != "tiff"@[1]
        && "tga"@[0] != "bmp"@[0]);
}

/// A job is written into its file's own output directory whenever the file
/// has one, whatever the batch output directory is; otherwise into the
/// batch output directory; with neither, over the source file itself.
pub proof fn law_job_output_directory(
    job: CompressionJob,
    files: Seq<ImageFile>,
    i: usize,
    global_dir: Option<Seq<char>>,
)
    requires
        i < files.len(),
        job_for(job, files, i, global_dir),
    ensures
        files[i as int].settings.output_directory matches Some(d) ==> job.output_path@ == joined_path(
            d@,
            files[i as int].name@,
        ),
        files[i as int].settings.output_directory is None ==> (global_dir matches Some(g) ==> job.output_path@
            == joined_path(g, files[i as int].name@)),
        files[i as int].settings.output_directory is None && global_dir is None ==> job.output_path@
            == files[i as int].path@,
{
}

/// A GIF frame's delay is its delay in milliseconds counted in hundredths
/// of a second, rounded down, and at least one hundredth.
pub proof fn law_gif_delay_hundredths(ms: u32)
    requires
        ms < 655360,
    ensures
        ms >= 10 ==> gif_delay(ms) * 10 <= ms < gif_delay(ms) * 10 + 10,
        ms < 10 ==> gif_delay(ms) == 1,
{
    let q: u32 = ms / 10;
    assert(q * 10 <= ms < q * 10 + 10);
    assert(q < 65536);
}

/// The frames of an animated GIF put together from `qs` with delays `d`:
/// as many as there are both frames and delays, each on the first frame's
/// canvas.
pub open spec fn gif_frame_list(
    qs: Seq<(Seq<char>, Seq<u8>, Seq<(u32, u32, Resampling)>)>,
    d: Seq<u32>,
) -> Seq<Seq<u8>> {
    let (w0, h0) = picture_dims(qs[0]);
    let n = if qs.len() < d.len() { qs.len() } else { d.len() };
    Seq::new(n, |k: int| gif_frame_rgba(qs[k], w0 as u16, h0 as u16))
}

/// An animated GIF is put together from its frames (as many as there are
/// both frames and delays), each shown for its delay in hundredths of a
/// second: the delay in milliseconds divided by ten, and at least one.
pub proof fn law_gif_frames_keep_delays(
    qs: Seq<(Seq<char>, Seq<u8>, Seq<(u32, u32, Resampling)>)>,
    d: Seq<u32>,
)
    requires
        qs.len() > 0,
    ensures
        exists|ds: Seq<u16>|
            {
                &&& ds.len() == gif_frame_list(qs, d).len()
                &&& assembled(OutputFormat::Gif, qs, d) == #[trigger] gif_animation(
                    gif_frame_list(qs, d),
                    picture_dims(qs[0]).0 as u16,
                    picture_dims(qs[0]).1 as u16,
                    ds,
                )
                &&& forall|k: int|
                    0 <= k < ds.len() && 10 <= #[trigger] d[k] < 655360 ==> ds[k] * 10 <= d[k] < ds[k] * 10 + 10
                &&& forall|k: int| 0 <= k < ds.len() && #[trigger] d[k] < 10 ==> ds[k] == 1
            },
{
    let (w0, h0) = picture_dims(qs[0]);
    let n = if qs.len() < d.len() { qs.len() } else { d.len() };
    let ds = Seq::new(n, |k: int| gif_delay(d[k]));
    assert forall|k: int| 0 <= k < ds.len() && 10 <= #[trigger] d[k] < 655360 implies ds[k] * 10 <= d[k] < ds[k]
        * 10 + 10 by {
        law_gif_delay_hundredths(d[k]);
    }
    assert forall|k: int| 0 <= k < ds.len() && #[trigger] d[k] < 10 implies ds[k] == 1 by {
        law_gif_delay_hundredths(d[k]);
    }
    assert(assembled(OutputFormat::Gif, qs, d) == gif_animation(gif_frame_list(qs, d), w0 as u16, h0 as u16, ds));
}

/// Two settings agree on every field but the one entry `o` of the settings
/// panel stands for; the output format and directory are not on that list.
pub open spec fn agree_except(a: ImageSettings, b: ImageSettings, o: SettingOption) -> bool {
    &&& o != SettingOption::Quality ==> b.quality == a.quality
    &&& o != SettingOption::Color ==> b.color_space == a.color_space
    &&& o != SettingOption::Exif ==> b.remove_exif == a.remove_exif
    &&& o != SettingOption::Progressive ==> b.progressive == a.progressive
    &&& o != SettingOption::PngCompress ==> b.png_compression == a.png_compression
    &&& o != SettingOption::MaxWidth ==> b.max_width == a.max_width
    &&& o != SettingOption::MaxHeight ==> b.max_height == a.max_height
    &&& o != SettingOption::WebpLossless ==> b.webp_lossless == a.webp_lossless
    &&& o != SettingOption::Overwrite ==> b.overwrite == a.overwrite
    &&& o != SettingOption::Backup ==> b.backup == a.backup
    &&& b.output_format == a.output_format
    &&& b.output_directory == a.output_directory
}

/// The value a size limit stands for: no limit counts as 0.
pub open spec fn limit_value(v: Option<u32>) -> int {
    match v {
        Some(x) => x as int,
        None => 0,
    }
}

/// Left and Right on an entry of the settings panel change only the field
/// that entry names. Left lowers the quality by 5 and the PNG level by 1
/// (not below 0), and a size limit by 100, where a limit of 100 or less
/// becomes no limit; Right raises the quality by 5 up to 100, the PNG level
/// by 1 up to 9, and a size limit by 100 up to 10000, where no limit
/// becomes 100. Both flip the on/off entries.
pub proof fn law_settings_keys_change_one_field(o: SettingOption, st: ImageSettings)
    ensures
        agree_except(st, left_settings(o, st), o),
        agree_except(st, right_settings(o, st), o),
        o == SettingOption::Quality ==> left_settings(o, st).quality == (if st.quality >= 5 {
            st.quality - 5
        } else {
            0
        }) && right_settings(o, st).quality == (if st.quality + 5 <= 100 {
            st.quality + 5
        } else {
            100
        }),
        o == SettingOption::PngCompress ==> left_settings(o, st).png_compression == (if st.png_compression >= 1 {
            st.png_compression - 1
        } else {
            0
        }) && right_settings(o, st).png_compression == (if st.png_compression + 1 <= 9 {
            st.png_compression + 1
        } else {
            9
        }),
        o == SettingOption::MaxWidth ==> {
            let cur = limit_value(st.max_width);
            let l = left_settings(o, st).max_width;
            let r = right_settings(o, st).max_width;
            &&& (l is None <==> cur <= 100)
            &&& (l is Some ==> limit_value(l) == cur - 100)
            &&& r is Some
            &&& limit_value(r) == (if cur == 0 {
                100
            } else if cur + 100 <= 10000 {
                cur + 100
            } else {
                10000
            })
        },
        o == SettingOption::MaxHeight ==> {
            let cur = limit_value(st.max_height);
            let l = left_settings(o, st).max_height;
            let r = right_settings(o, st).max_height;
            &&& (l is None <==> cur <= 100)
            &&& (l is Some ==> limit_value(l) == cur - 100)
            &&& r is Some
            &&& limit_value(r) == (if cur == 0 {
                100
            } else if cur + 100 <= 10000 {
                cur + 100
            } else {
                10000
            })
        },
        o == SettingOption::Color ==> left_settings(o, st).color_space != st.color_space
            && right_settings(o, st).color_space != st.color_space,
        o == SettingOption::Exif ==> left_settings(o, st).remove_exif == !st.remove_exif
            && right_settings(o, st).remove_exif == !st.remove_exif,
        o == SettingOption::Progressive ==> left_settings(o, st).progressive == !st.progressive
            && right_settings(o, st).progressive == !st.progressive,
        o == SettingOption::WebpLossless ==> left_settings(o, st).webp_lossless == !st.webp_lossless
            && right_settings(o, st).webp_lossless == !st.webp_lossless,
        o == SettingOption::Overwrite ==> left_settings(o, st).overwrite == !st.overwrite
            && right_settings(o, st).overwrite == !st.overwrite,
        o == SettingOption::Backup ==> left_settings(o, st).backup == !st.backup && right_settings(o, st).backup
            == !st.backup,
{
}

/// The results listed for the events of a run: one for each finished
/// file, in the order the files finished.
pub open spec fn finished_results(evs: Seq<CompressionEvent>) -> Seq<CompressionResult>
    decreases evs.len(),
{
    if evs.len() == 0 {
        Seq::empty()
    } else {
        let before = finished_results(evs.drop_last());
        match evs.last() {
            CompressionEvent::FileCompleted(r) => before.push(
                CompressionResult {
                    file_index: r.file_index,
                    original_size: r.original_size,
                    new_size: r.new_size,
                    output_filename: r.output_filename,
                    error: r.error,
                },
            ),
            _ => before,
        }
    }
}

/// Once a run has started, the results panel lists exactly the files the
/// run has finished so far, in order: the results of an earlier run are
/// gone, and no other event of the run adds or removes one.
pub proof fn law_results_of_current_run(m: AppModel, total: usize, evs: Seq<CompressionEvent>)
    requires
        forall|k: int| 0 <= k < evs.len() ==> !(#[trigger] evs[k] is Started),
    ensures
        events_step(m, seq![CompressionEvent::Started(total)] + evs).0.compression_results
            == finished_results(evs),
    decreases evs.len(),
{
    let all = seq![CompressionEvent::Started(total)] + evs;
    if evs.len() == 0 {
        assert(all.drop_last() =~= Seq::<CompressionEvent>::empty());
        assert(all.last() == CompressionEvent::Started(total));
    } else {
        let rest = evs.drop_last();
        assert forall|k: int| 0 <= k < rest.len() implies !(#[trigger] rest[k] is Started) by {
            assert(rest[k] == evs[k]);
        }
        law_results_of_current_run(m, total, rest);
        assert(all.drop_last() =~= seq![CompressionEvent::Started(total)] + rest);
        assert(all.last() == evs.last());
        assert(!(evs[evs.len() - 1] is Started));
        let m1 = events_step(m, all.drop_last()).0;
        match evs.last() {
            CompressionEvent::Completed { success_count, total_saved, results } => {
                assert(completed_step(m1, success_count, total_saved, results@).0.compression_results
                    == m1.compression_results);
            },
            _ => {},
        }
    }
}

} // verus!
