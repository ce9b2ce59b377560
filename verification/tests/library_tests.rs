use tui_img::{
    bytes_to_human, choose_encoder, compress_bmp, compress_gif, compress_jpeg, compress_png,
    compress_tga, compress_tiff, compress_webp_lossless, direct_encoder, entry_order,
    get_cached_metadata, get_unique_path, keep_in_listing, next_setting_down, next_setting_up, output_base_path,
    parse_u32_str, path_to_tilde, png_plan, resize_plan, resolve_output_directory, webp_mode,
    App, BatchTally, CachedImageInfo, ColorSpace, CompressError, CompressionEvent, CompressionJob,
    Effect, Encoder, EntryOrder, ExifData, FileResult, FocusedColumn, ImageFile, ImageSettings, Key,
    ListingEntry, OutputFormat, OutputLine, PixelLayout, PngInterlace, PngPreset, ResizePlan,
    SettingOption, WebpMode, list_columns, pad_left, pad_right,
};

fn image_entry(path: &str, size: u64) -> ImageFile {
    ImageFile::new_lightweight(path.to_string(), false, size)
}

fn app_with_files(paths: &[&str]) -> App {
    let mut app = App::new("/pics".to_string());
    for p in paths {
        app.files.push(image_entry(p, 1000));
    }
    if !app.files.is_empty() {
        app.selected_index = Some(0);
    }
    app
}

fn exif_with_camera(camera: &str) -> ExifData {
    let mut e = ExifData::default();
    e.camera = Some(camera.to_string());
    e
}

fn listing(path: &str, is_dir: bool, len: u64, info: Option<CachedImageInfo>) -> ListingEntry {
    ListingEntry { path: path.to_string(), is_dir, file_len: len, info }
}

fn info(w: u32, h: u32, mtime: u64) -> CachedImageInfo {
    CachedImageInfo { dimensions: Some((w, h)), color_type: Some("RGB".to_string()), file_mtime: mtime }
}

// ----- key handling -----

#[test]
fn quit_key_asks_to_leave() {
    let mut app = app_with_files(&["/pics/a.jpg"]);
    assert_eq!(app.handle_key(Key::Char('q'), None), vec![Effect::Quit]);
    assert_eq!(app.handle_key(Key::Esc, None), vec![Effect::Quit]);
}

#[test]
fn cancel_key_during_compression() {
    let mut app = app_with_files(&["/pics/a.jpg"]);
    app.compressing = true;
    assert_eq!(app.handle_key(Key::Char('Q'), None), vec![Effect::SendCancelled]);
    assert!(app.compression_cancelled);
    assert_eq!(app.handle_key(Key::Down, None), vec![]);
}

#[test]
fn tab_cycles_the_columns() {
    let mut app = app_with_files(&["/pics/a.jpg"]);
    assert_eq!(app.focused_column, FocusedColumn::Files);
    app.handle_key(Key::Tab, None);
    assert_eq!(app.focused_column, FocusedColumn::ImageSettings);
    app.handle_key(Key::Tab, None);
    assert_eq!(app.focused_column, FocusedColumn::Output);
    app.handle_key(Key::Tab, None);
    assert_eq!(app.focused_column, FocusedColumn::Files);
}

#[test]
fn down_and_up_move_the_selection_and_ask_for_metadata() {
    let mut app = app_with_files(&["/pics/a.jpg", "/pics/b.jpg", "/pics/c.jpg"]);
    let eff = app.handle_key(Key::Down, None);
    assert_eq!(app.selected_index, Some(1));
    assert_eq!(eff, vec![Effect::LoadExif(1), Effect::PreloadExif { start: 1, count: 10 }]);
    let eff = app.handle_key(Key::Char('k'), None);
    assert_eq!(app.selected_index, Some(0));
    assert_eq!(eff, vec![Effect::LoadExif(0), Effect::PreloadExif { start: 0, count: 10 }]);
    assert_eq!(app.handle_key(Key::Up, None), vec![]);
    assert_eq!(app.selected_index, Some(0));
}

#[test]
fn end_and_home_jump() {
    let mut app = app_with_files(&["/pics/a.jpg", "/pics/b.jpg", "/pics/c.jpg"]);
    app.handle_key(Key::End, None);
    assert_eq!(app.selected_index, Some(2));
    app.handle_key(Key::Home, None);
    assert_eq!(app.selected_index, Some(0));
    assert_eq!(app.scroll_offset, 0);
}

#[test]
fn space_twice_gives_back_the_queue() {
    let mut app = app_with_files(&["/pics/a.jpg", "/pics/b.jpg"]);
    app.handle_key(Key::Char(' '), None);
    assert_eq!(app.queue, vec![0]);
    assert!(app.files[0].queued);
    app.handle_key(Key::Char(' '), None);
    assert!(app.queue.is_empty());
    assert!(!app.files[0].queued);
}

#[test]
fn clear_queue_key_unqueues_every_file() {
    let mut app = app_with_files(&["/pics/a.jpg", "/pics/b.jpg"]);
    app.handle_key(Key::Char(' '), None);
    app.handle_key(Key::Down, None);
    app.handle_key(Key::Char(' '), None);
    assert_eq!(app.queue, vec![0, 1]);
    app.handle_key(Key::Char('C'), None);
    assert!(app.queue.is_empty());
    assert!(app.files.iter().all(|f| !f.queued));
}

#[test]
fn compress_key_only_with_a_queue() {
    let mut app = app_with_files(&["/pics/a.jpg"]);
    assert_eq!(app.handle_key(Key::Char('c'), None), vec![]);
    app.handle_key(Key::Char(' '), None);
    assert_eq!(app.handle_key(Key::Char('c'), None), vec![Effect::StartCompression]);
}

#[test]
fn help_closes_on_any_key() {
    let mut app = app_with_files(&["/pics/a.jpg"]);
    app.handle_key(Key::Char('?'), None);
    assert!(app.show_help);
    app.handle_key(Key::Char('x'), None);
    assert!(!app.show_help);
}

#[test]
fn settings_quality_right_and_left() {
    let mut app = app_with_files(&["/pics/a.jpg"]);
    app.focused_column = FocusedColumn::ImageSettings;
    app.setting_option = SettingOption::Quality;
    app.handle_key(Key::Right, None);
    assert_eq!(app.files[0].settings.quality, 90);
    assert_eq!(app.default_quality, 90);
    app.handle_key(Key::Right, None);
    app.handle_key(Key::Right, None);
    assert_eq!(app.files[0].settings.quality, 100);
    app.handle_key(Key::Left, None);
    assert_eq!(app.files[0].settings.quality, 95);
}

#[test]
fn color_setting_cycles_in_three_steps() {
    let mut app = app_with_files(&["/pics/a.jpg"]);
    app.focused_column = FocusedColumn::ImageSettings;
    app.setting_option = SettingOption::Color;
    app.handle_key(Key::Right, None);
    assert_eq!(app.files[0].settings.color_space, ColorSpace::Rgba);
    app.handle_key(Key::Left, None);
    assert_eq!(app.files[0].settings.color_space, ColorSpace::Grayscale);
    app.handle_key(Key::Right, None);
    assert_eq!(app.files[0].settings.color_space, ColorSpace::Rgb);
}

#[test]
fn format_setting_cycles_through_every_format() {
    let mut app = app_with_files(&["/pics/a.jpg"]);
    app.focused_column = FocusedColumn::ImageSettings;
    app.setting_option = SettingOption::Format;
    let expected = [
        Some(OutputFormat::Jpeg),
        Some(OutputFormat::Png),
        Some(OutputFormat::Webp),
        Some(OutputFormat::Gif),
        Some(OutputFormat::Tiff),
        Some(OutputFormat::Bmp),
        Some(OutputFormat::Tga),
        None,
    ];
    for e in expected {
        app.handle_key(Key::Right, None);
        assert_eq!(app.global_output_format, e);
    }
    app.handle_key(Key::Left, None);
    assert_eq!(app.global_output_format, Some(OutputFormat::Tga));
}

#[test]
fn size_limit_steps() {
    let mut app = app_with_files(&["/pics/a.jpg"]);
    app.focused_column = FocusedColumn::ImageSettings;
    app.setting_option = SettingOption::MaxWidth;
    app.handle_key(Key::Right, None);
    assert_eq!(app.files[0].settings.max_width, Some(100));
    app.handle_key(Key::Right, None);
    assert_eq!(app.files[0].settings.max_width, Some(200));
    app.handle_key(Key::Left, None);
    assert_eq!(app.files[0].settings.max_width, Some(100));
    app.handle_key(Key::Left, None);
    assert_eq!(app.files[0].settings.max_width, None);
}

#[test]
fn typed_size_is_committed_and_capped() {
    let mut app = app_with_files(&["/pics/a.jpg"]);
    app.focused_column = FocusedColumn::ImageSettings;
    app.setting_option = SettingOption::MaxHeight;
    for c in "25000".chars() {
        app.handle_key(Key::Char(c), None);
    }
    assert_eq!(app.height_input, "25000");
    app.handle_key(Key::Down, None);
    assert_eq!(app.files[0].settings.max_height, Some(10000));
    assert!(app.height_input.is_empty());
}

#[test]
fn output_directory_entry_expands_home() {
    let mut app = app_with_files(&["/pics/a.jpg"]);
    app.focused_column = FocusedColumn::ImageSettings;
    app.setting_option = SettingOption::OutputDir;
    app.handle_key(Key::Right, None);
    assert!(app.input_mode);
    for c in "~/out".chars() {
        app.handle_key(Key::Char(c), Some("/home/ann"));
    }
    app.handle_key(Key::Enter, Some("/home/ann"));
    assert!(!app.input_mode);
    assert_eq!(app.global_output_directory, Some("/home/ann/out".to_string()));
}

#[test]
fn output_directory_entry_relative_path() {
    let mut app = app_with_files(&["/pics/a.jpg"]);
    app.focused_column = FocusedColumn::ImageSettings;
    app.setting_option = SettingOption::OutputDir;
    app.handle_key(Key::Left, None);
    for c in "small".chars() {
        app.handle_key(Key::Char(c), None);
    }
    app.handle_key(Key::Backspace, None);
    app.handle_key(Key::Enter, None);
    assert_eq!(app.global_output_directory, Some("/pics/smal".to_string()));
}

#[test]
fn enter_on_a_directory_changes_directory() {
    let mut app = App::new("/pics".to_string());
    app.files.push(ImageFile::new_parent());
    app.files.push(ImageFile::new_lightweight("/pics/holiday".to_string(), true, 0));
    app.selected_index = Some(1);
    assert_eq!(app.handle_key(Key::Enter, None), vec![Effect::LoadDirectory]);
    assert_eq!(app.current_dir, "/pics/holiday");
    app.selected_index = Some(0);
    assert_eq!(app.handle_key(Key::Enter, None), vec![Effect::LoadDirectory]);
    assert_eq!(app.current_dir, "/pics");
    assert_eq!(app.handle_key(Key::Backspace, None), vec![Effect::LoadDirectory]);
    assert_eq!(app.current_dir, "/");
    assert_eq!(app.handle_key(Key::Backspace, None), vec![]);
}

#[test]
fn settings_navigation_cycles_and_reverses() {
    let file = image_entry("/pics/a.jpg", 10);
    for format in [None, Some(OutputFormat::Png), Some(OutputFormat::Webp), Some(OutputFormat::Gif)] {
        let start = SettingOption::Format;
        let mut o = start;
        let mut steps = 0;
        loop {
            let next = next_setting_down(o, format, Some(&file));
            assert_eq!(next_setting_up(next, format, Some(&file)), o);
            o = next;
            steps += 1;
            if o == start {
                break;
            }
            assert!(steps < 20);
        }
    }
}

// ----- directory listing -----

#[test]
fn listing_keeps_directories_and_images() {
    let mut app = App::new("/pics".to_string());
    let eff = app.load_directory(vec![
        listing("/pics/album", true, 4096, None),
        listing("/pics/a.jpg", false, 2048, Some(info(640, 480, 7))),
        listing("/pics/notes.txt", false, 10, None),
        listing("/pics/b.PNG", false, 99, Some(info(10, 20, 8))),
    ]);
    assert_eq!(eff, vec![Effect::LoadExif(0)]);
    let names: Vec<&str> = app.files.iter().map(|f| f.name.as_str()).collect();
    assert_eq!(names, vec!["..", "album", "a.jpg", "b.PNG"]);
    assert!(app.files[0].is_parent);
    assert_eq!(app.files[1].size, 0);
    assert_eq!(app.files[2].size, 2048);
    assert_eq!(app.files[2].dimensions, Some((640, 480)));
    assert!(app.files[2].needs_exif);
    assert!(!app.files[3].needs_exif);
    assert_eq!(app.selected_index, Some(0));
    assert!(app.queue.is_empty());
    assert_eq!(app.metadata_cache.get("/pics/a.jpg").map(|i| i.file_mtime), Some(7));
    assert!(!app.metadata_cache.contains_key("/pics/notes.txt"));
}

#[test]
fn listing_the_root_has_no_parent_link() {
    let mut app = App::new("/".to_string());
    let eff = app.load_directory(vec![]);
    assert!(app.files.is_empty());
    assert_eq!(app.selected_index, None);
    assert!(eff.is_empty());
}

#[test]
fn listing_clears_queue_and_scroll() {
    let mut app = app_with_files(&["/pics/a.jpg", "/pics/b.jpg"]);
    app.handle_key(Key::Char(' '), None);
    app.scroll_offset = 1;
    app.load_directory(vec![listing("/pics/c.gif", false, 5, Some(info(1, 1, 1)))]);
    assert!(app.queue.is_empty());
    assert_eq!(app.scroll_offset, 0);
    assert_eq!(app.files.len(), 2);
}

#[test]
fn listing_order_directories_first_then_names() {
    assert_eq!(entry_order(true, "zeta", false, "alpha"), EntryOrder::Before);
    assert_eq!(entry_order(false, "alpha", true, "zeta"), EntryOrder::After);
    assert_eq!(entry_order(false, "alpha", false, "beta"), EntryOrder::Before);
    assert_eq!(entry_order(false, "ab", false, "abc"), EntryOrder::Before);
    assert_eq!(entry_order(false, "B", false, "a"), EntryOrder::Before);
    assert_eq!(entry_order(true, "same", true, "same"), EntryOrder::Same);
    assert_eq!(entry_order(false, "é", false, "z"), EntryOrder::After);
}

#[test]
fn listing_filter() {
    assert!(keep_in_listing("/x/dir", true));
    assert!(keep_in_listing("/x/photo.TIF", false));
    assert!(!keep_in_listing("/x/readme.md", false));
}

// ----- camera metadata -----

#[test]
fn exif_from_cache_or_from_disk() {
    let mut app = app_with_files(&["/pics/a.jpg", "/pics/b.jpg", "/pics/c.png"]);
    assert_eq!(app.load_exif(0), Some("/pics/a.jpg".to_string()));
    app.exif_read(0, Some(exif_with_camera("X100")));
    assert_eq!(app.files[0].exif_data.as_ref().and_then(|e| e.camera.clone()), Some("X100".to_string()));
    assert!(app.exif_cache.contains_key("/pics/a.jpg"));
    assert_eq!(app.load_exif(0), None);
    assert_eq!(app.load_exif(2), None);

    let mut other = app_with_files(&["/pics/a.jpg"]);
    other.exif_cache.insert("/pics/a.jpg".to_string(), exif_with_camera("Q2"));
    assert_eq!(other.load_exif(0), None);
    assert_eq!(other.files[0].exif_data.as_ref().and_then(|e| e.camera.clone()), Some("Q2".to_string()));
}

#[test]
fn preload_reads_only_what_is_missing() {
    let mut app = app_with_files(&["/pics/a.jpg", "/pics/b.png", "/pics/c.jpeg", "/pics/d.jpg"]);
    app.exif_cache.insert("/pics/d.jpg".to_string(), exif_with_camera("Z"));
    let targets = app.preload_exif_batch(0, 10);
    assert_eq!(targets, vec![(0, "/pics/a.jpg".to_string()), (2, "/pics/c.jpeg".to_string())]);
    assert_eq!(app.preload_exif_batch(1, 2), vec![(2, "/pics/c.jpeg".to_string())]);
    assert!(app.preload_exif_batch(9, 3).is_empty());
    app.apply_preloaded(vec![(0, Some(exif_with_camera("A"))), (2, None)]);
    assert!(app.files[0].exif_data.is_some());
    assert!(app.files[2].exif_data.is_none());
    assert_eq!(app.preload_exif_batch(0, 10), vec![(2, "/pics/c.jpeg".to_string())]);
}

// ----- compression runs -----

#[test]
fn compress_queue_builds_jobs_in_queue_order() {
    let mut app = app_with_files(&["/pics/a.jpg", "/pics/b.png"]);
    assert!(app.compress_queue().is_empty());
    app.queue = vec![1, 0];
    app.files[0].queued = true;
    app.files[1].queued = true;
    let jobs = app.compress_queue();
    assert_eq!(jobs.len(), 2);
    assert_eq!(jobs[0].file_index, 1);
    assert_eq!(jobs[0].output_path, "/pics/b.png");
    assert_eq!(jobs[1].name, "a.jpg");
    assert_eq!(jobs[1].original_size, 1000);
    assert!(app.compressing);
    assert_eq!(app.progress, Some((0, 2, 0, "Starting...".to_string())));
    assert!(app.compress_queue().is_empty());
}

fn job(index: usize, name: &str, size: u64) -> CompressionJob {
    CompressionJob {
        file_index: index,
        output_path: format!("/out/{}", name),
        source_path: format!("/pics/{}", name),
        name: name.to_string(),
        settings: ImageSettings::default(),
        original_size: size,
    }
}

#[test]
fn tally_events_for_each_outcome() {
    let mut tally = BatchTally::new();
    let ok = tally.record_outcome(0, 2, &job(3, "a.jpg", 1000), Ok((400, "a.jpg".to_string())));
    assert_eq!(ok.len(), 3);
    match &ok[0] {
        CompressionEvent::Stage(s) => assert_eq!(s, "Compressing to a.jpg..."),
        _ => panic!("stage expected"),
    }
    match &ok[1] {
        CompressionEvent::Progress { current, total, filename, sub_progress } => {
            assert_eq!((*current, *total, filename.as_str(), *sub_progress), (1, 2, "a.jpg", 100));
        }
        _ => panic!("progress expected"),
    }
    let failed = tally.record_outcome(1, 2, &job(4, "b.png", 500), Err("bad".to_string()));
    assert_eq!(failed.len(), 1);
    assert_eq!(tally.total_saved, 600);
    assert_eq!(tally.success_count(), 1);
    match tally.finish() {
        CompressionEvent::Completed { success_count, total_saved, results } => {
            assert_eq!(success_count, 1);
            assert_eq!(total_saved, 600);
            assert_eq!(results.len(), 2);
            assert_eq!(results[1].error, Some("bad".to_string()));
            assert_eq!(results[1].new_size, 500);
        }
        _ => panic!("completed expected"),
    }
}

fn result(index: usize, original: u64, new: u64, error: Option<&str>) -> FileResult {
    FileResult {
        file_index: index,
        source_name: "x".to_string(),
        original_size: original,
        new_size: new,
        output_filename: if error.is_none() { Some("x".to_string()) } else { None },
        error: error.map(|e| e.to_string()),
    }
}

#[test]
fn events_update_progress_and_results() {
    let mut app = app_with_files(&["/pics/a.jpg", "/pics/b.jpg"]);
    app.compressing = true;
    let eff = app.process_compression_events(vec![
        CompressionEvent::Stage("ignored".to_string()),
        CompressionEvent::Started(2),
        CompressionEvent::Stage("Converting a.jpg...".to_string()),
        CompressionEvent::Progress { current: 1, total: 2, filename: "a.jpg".to_string(), sub_progress: 100 },
        CompressionEvent::FileCompleted(result(0, 1000, 300, None)),
    ]);
    assert!(eff.is_empty());
    assert_eq!(app.progress, Some((1, 2, 100, "a.jpg".to_string())));
    assert_eq!(app.compression_results.len(), 1);
    assert_eq!(app.compression_results[0].new_size, 300);
}

#[test]
fn completed_run_reports_savings_and_reloads() {
    let mut app = app_with_files(&["/pics/a.jpg", "/pics/b.jpg"]);
    app.queue = vec![0, 1];
    app.files[0].queued = true;
    app.files[1].queued = true;
    app.compressing = true;
    let eff = app.process_compression_events(vec![CompressionEvent::Completed {
        success_count: 2,
        total_saved: 1536,
        results: vec![result(0, 1000, 200, None), result(1, 1000, 264, None)],
    }]);
    assert_eq!(eff, vec![Effect::LoadDirectory]);
    assert!(!app.compressing);
    assert!(app.progress.is_none());
    assert_eq!(app.success_message, Some("Compressed 2 files, saved 1.5 KB".to_string()));
    assert_eq!(app.files[0].size, 200);
    assert!(app.queue.is_empty());
    assert!(!app.files[1].queued);
}

#[test]
fn completed_run_with_failures_reports_the_first() {
    let mut app = app_with_files(&["/pics/a.jpg", "/pics/b.jpg"]);
    app.global_output_directory = Some("/elsewhere".to_string());
    app.compressing = true;
    let eff = app.process_compression_events(vec![CompressionEvent::Completed {
        success_count: 1,
        total_saved: 10,
        results: vec![result(0, 20, 10, None), result(1, 20, 20, Some("boom")), result(1, 20, 20, Some("late"))],
    }]);
    assert!(eff.is_empty());
    assert_eq!(app.error_message, Some("Completed: 1 ok, 2 failed - boom".to_string()));
    assert!(app.success_message.is_none());
}

#[test]
fn output_into_current_directory_reloads() {
    let mut app = app_with_files(&["/pics/a.jpg"]);
    app.global_output_directory = Some("/pics/".to_string());
    let eff = app.process_compression_events(vec![CompressionEvent::Completed {
        success_count: 0,
        total_saved: 0,
        results: vec![],
    }]);
    assert_eq!(eff, vec![Effect::LoadDirectory]);
}

#[test]
fn cancelled_run_frees_the_interface() {
    let mut app = app_with_files(&["/pics/a.jpg"]);
    app.compressing = true;
    app.compression_cancelled = true;
    app.focused_column = FocusedColumn::Output;
    app.process_compression_events(vec![CompressionEvent::Cancelled]);
    assert!(!app.compressing);
    assert!(!app.compression_cancelled);
    assert_eq!(app.focused_column, FocusedColumn::Files);
    assert_eq!(app.error_message, Some("Compression cancelled".to_string()));
}

#[test]
fn queue_size_and_visible_index() {
    let mut app = app_with_files(&["/pics/a.jpg", "/pics/b.jpg", "/pics/c.jpg"]);
    app.queue = vec![0, 2];
    assert_eq!(app.queue_size(), 2000);
    app.selected_index = Some(2);
    assert_eq!(app.get_visible_index(), Some(2));
    assert_eq!(app.get_visible_files().len(), 3);
}

// ----- planning -----

#[test]
fn unique_path_candidates() {
    let mut search = get_unique_path("/out/photo.jpg");
    assert_eq!(search.candidate(), "/out/photo.jpg");
    search.advance();
    assert_eq!(search.candidate(), "/out/photo_2.jpg");
    search.advance();
    assert_eq!(search.candidate(), "/out/photo_3.jpg");
    let mut bare = get_unique_path("/out/README");
    bare.advance();
    assert_eq!(bare.candidate(), "/out/README_2");
}

#[test]
fn output_path_takes_the_target_extension() {
    assert_eq!(output_base_path("/out/a.png", OutputFormat::Jpeg), "/out/a.jpg");
    assert_eq!(output_base_path("/out/a.png", OutputFormat::Same), "/out/a.png");
    assert_eq!(output_base_path("/out/archive.tar.gz", OutputFormat::Webp), "/out/archive.tar.webp");
}

#[test]
fn encoders_for_targets() {
    assert_eq!(choose_encoder(OutputFormat::Same, Some("tif")).ok(), Some(Encoder::Tiff));
    assert_eq!(choose_encoder(OutputFormat::Png, None).ok(), Some(Encoder::Png));
    match choose_encoder(OutputFormat::Same, Some("raw")) {
        Err(e) => assert_eq!(e.message(), "Unsupported format"),
        Ok(_) => panic!("raw is not supported"),
    }
    match direct_encoder(OutputFormat::Same) {
        Err(e) => assert_eq!(e.message(), "Cannot use OutputFormat::Same for compression"),
        Ok(_) => panic!("Same has no encoder"),
    }
}

#[test]
fn resize_only_when_exceeding() {
    let mut s = ImageSettings::default();
    assert_eq!(resize_plan(1920, 1080, &s), ResizePlan::Keep);
    s.max_width = Some(960);
    assert_eq!(resize_plan(1920, 1080, &s), ResizePlan::ToWidth(960));
    assert_eq!(resize_plan(800, 1080, &s), ResizePlan::Keep);
    s.max_height = Some(2000);
    assert_eq!(resize_plan(1920, 1080, &s), ResizePlan::Fit { max_width: 960, max_height: 2000 });
    s.max_width = None;
    s.max_height = Some(540);
    assert_eq!(resize_plan(1920, 1080, &s), ResizePlan::ToHeight(540));
}

#[test]
fn encoder_options_from_settings() {
    let mut s = ImageSettings::default();
    assert_eq!(png_plan(&s), (PngPreset::Standard, PngInterlace::NoInterlace));
    s.png_compression = 8;
    s.progressive = true;
    assert_eq!(png_plan(&s), (PngPreset::Max, PngInterlace::Adam7));
    assert_eq!(webp_mode(&s), WebpMode::Lossy(85));
    s.webp_lossless = true;
    assert_eq!(webp_mode(&s), WebpMode::Lossless);
}

#[test]
fn typed_numbers_and_directories() {
    assert_eq!(parse_u32_str("1920"), Some(1920));
    assert_eq!(parse_u32_str("+7"), Some(7));
    assert_eq!(parse_u32_str("4294967296"), None);
    assert_eq!(parse_u32_str(""), None);
    assert_eq!(parse_u32_str("12a"), None);
    assert_eq!(resolve_output_directory("~/x", Some("/home/ann"), "/pics"), "/home/ann/x");
    assert_eq!(resolve_output_directory("~x", Some("/home/ann"), "/pics"), "/home/ann/x");
    assert_eq!(resolve_output_directory("~/x", None, "/pics"), "~/x");
    assert_eq!(resolve_output_directory("/abs", Some("/home/ann"), "/pics"), "/abs");
    assert_eq!(resolve_output_directory("rel", None, "/pics"), "/pics/rel");
}

#[test]
fn tilde_needs_a_home() {
    assert_eq!(path_to_tilde("/home/ann/x", None), "/home/ann/x");
    assert_eq!(path_to_tilde("/home/ann/x/", Some("/home/ann/")), "~/x");
    assert_eq!(path_to_tilde("/home/annex", Some("/home/ann")), "~ex");
}

#[test]
fn human_sizes_round_like_the_formatter() {
    assert_eq!(bytes_to_human(1280), format!("{:.1} KB", 1280f64 / 1024.0));
    assert_eq!(bytes_to_human(1126), format!("{:.1} KB", 1126f64 / 1024.0));
    assert_eq!(bytes_to_human(u64::MAX), format!("{:.1} GB", u64::MAX as f64 / 1073741824.0));
}

// ----- encoders -----

#[test]
fn jpeg_output_starts_with_the_marker() {
    let pixels = vec![200u8; 4 * 3 * 3];
    let out = compress_jpeg(&pixels, 4, 3, &ImageSettings::default()).unwrap();
    assert_eq!(&out[..2], &[0xFF, 0xD8]);
    assert!(matches!(compress_jpeg(&[], 0, 3, &ImageSettings::default()), Err(CompressError::Encoder(_))));
}

#[test]
fn png_output_is_a_png_file() {
    let pixels = vec![10u8; 3 * 2];
    let out = compress_png(&pixels, 3, 2, PixelLayout::Luma8, &ImageSettings::default()).unwrap();
    assert_eq!(&out[..8], &[0x89, 0x50, 0x4E, 0x47, 0x0D, 0x0A, 0x1A, 0x0A]);
    assert!(out.len() > pixels.len());
}

#[test]
fn other_writers_produce_their_headers() {
    let rgb = vec![90u8; 5 * 4 * 3];
    let s = ImageSettings::default();
    let gif = compress_gif(&rgb, 5, 4, PixelLayout::Rgb8, &s).unwrap();
    assert_eq!(&gif[..3], b"GIF");
    let bmp = compress_bmp(&rgb, 5, 4, PixelLayout::Rgb8, &s).unwrap();
    assert_eq!(&bmp[..2], b"BM");
    let tiff = compress_tiff(&rgb, 5, 4, PixelLayout::Rgb8, &s).unwrap();
    assert!(&tiff[..2] == b"II" || &tiff[..2] == b"MM");
    let tga = compress_tga(&rgb, 5, 4, PixelLayout::Rgb8, &s).unwrap();
    assert!(tga.len() > 18);
}

#[test]
fn lossless_webp_is_a_riff_file() {
    let rgba = vec![30u8; 2 * 2 * 4];
    let out = compress_webp_lossless(&rgba, 2, 2);
    assert_eq!(&out[..4], b"RIFF");
    assert_eq!(&out[8..12], b"WEBP");
}

// ----- screen text -----

fn setting_values(lines: &[tui_img::PanelLine]) -> Vec<(String, String, bool)> {
    lines
        .iter()
        .filter_map(|l| match l {
            tui_img::PanelLine::Setting { label, value, selected } => Some((label.clone(), value.clone(), *selected)),
            _ => None,
        })
        .collect()
}

#[test]
fn settings_panel_for_png_output() {
    let mut app = app_with_files(&["/pics/a.jpg"]);
    app.global_output_format = Some(OutputFormat::Png);
    app.focused_column = FocusedColumn::ImageSettings;
    app.setting_option = SettingOption::PngCompress;
    app.global_output_directory = Some("/home/ann/out".to_string());
    let lines = app.settings_panel_lines(10, Some("/home/ann"));
    let values = setting_values(&lines);
    let labels: Vec<&str> = values.iter().map(|v| v.0.as_str()).collect();
    assert_eq!(
        labels,
        vec!["Format", "Color", "EXIF", "Progressive", "PNG Comp", "Max Width", "Max Height", "Output", "Backup", "Output Dir"]
    );
    assert_eq!(values[0].1, "PNG");
    assert_eq!(values[4], ("PNG Comp".to_string(), "6".to_string(), true));
    assert_eq!(values[5].1, "None");
    assert_eq!(values[7].1, "New file");
    assert_eq!(values[9].1, "~/out");
    assert!(matches!(lines[0], tui_img::PanelLine::Blank));
}

#[test]
fn settings_panel_while_typing() {
    let mut app = app_with_files(&["/pics/a.webp"]);
    app.focused_column = FocusedColumn::ImageSettings;
    app.setting_option = SettingOption::MaxWidth;
    for c in "640".chars() {
        app.handle_key(Key::Char(c), None);
    }
    app.global_output_format = Some(OutputFormat::Webp);
    let lines = app.settings_panel_lines(12, None);
    let values = setting_values(&lines);
    assert_eq!(values[1], ("WebP".to_string(), "Lossy".to_string(), false));
    assert_eq!(values[2].0, "Quality");
    assert_eq!(values[2].1, tui_img::create_quality_slider(85, 12));
    let width = values.iter().find(|v| v.0 == "Max Width").unwrap();
    assert_eq!(width.1, "640px");
    assert!(width.2);
}

#[test]
fn settings_panel_output_dir_entry() {
    let mut app = App::new("/pics".to_string());
    app.input_mode = true;
    app.input_target = SettingOption::OutputDir;
    app.input_buffer = "out".to_string();
    let lines = app.settings_panel_lines(0, None);
    let values = setting_values(&lines);
    assert_eq!(values.last().unwrap().1, "out▌");
    assert!(matches!(lines[lines.len() - 2], tui_img::PanelLine::Typing(ref t) if t == "out"));
    assert!(matches!(lines[lines.len() - 1], tui_img::PanelLine::TypingHint));
    assert_eq!(values[0].1, "Same");
    assert_eq!(values[1].0, "Quality");
}

fn output_texts(lines: &[OutputLine]) -> Vec<String> {
    lines
        .iter()
        .map(|l| match l {
            OutputLine::Blank => String::new(),
            OutputLine::Heading(t) | OutputLine::Detail(t) | OutputLine::Status(t) | OutputLine::Progress(t) => t.clone(),
            OutputLine::QueuedFile { name, ext } => format!("{} {}", name, ext),
            OutputLine::Failed { name, reason } => format!("x {} {}", name, reason),
            OutputLine::Saved { name, sizes, .. } => format!("ok {} {}", name, sizes),
            OutputLine::Busy => "Compressing...".to_string(),
        })
        .collect()
}

#[test]
fn output_panel_lists_settings_queue_and_results() {
    let mut app = app_with_files(&["/pics/a.jpg", "/pics/b.png"]);
    app.files[0].settings.max_width = Some(800);
    app.handle_key(Key::Char(' '), None);
    app.handle_key(Key::Down, None);
    app.handle_key(Key::Char(' '), None);
    app.compression_results.push(tui_img::CompressionResult {
        file_index: 0,
        original_size: 2048,
        new_size: 1024,
        output_filename: Some("a.jpg".to_string()),
        error: None,
    });
    app.compression_results.push(tui_img::CompressionResult {
        file_index: 1,
        original_size: 10,
        new_size: 10,
        output_filename: None,
        error: Some("a rather long message that gets cut".to_string()),
    });
    let texts = output_texts(&app.output_panel_lines(0));
    assert_eq!(
        texts,
        vec![
            "",
            "Output Settings",
            "  Format: Same",
            "  Color: RGB",
            "  Quality: 85%",
            "",
            "Queue",
            "  2 files • 2.0 KB",
            "a.jpg (JPG)",
            "b.png (PNG)",
            "",
            "Results:",
            "x b.png a rather long message that ...",
            "ok a.jpg 2.0 KB → 1.0 KB (-1.0 KB)",
        ]
    );
}

#[test]
fn output_panel_long_queue_and_progress() {
    let names: Vec<String> = (0..12).map(|i| format!("/pics/{}.jpg", i)).collect();
    let refs: Vec<&str> = names.iter().map(|s| s.as_str()).collect();
    let mut app = app_with_files(&refs);
    app.selected_index = None;
    for i in 0..12 {
        app.files[i].queued = true;
    }
    app.compressing = true;
    app.progress = Some((3, 12, 40, "Converting 2.jpg...".to_string()));
    let texts = output_texts(&app.output_panel_lines(50));
    assert_eq!(texts[2], "  12 files • 11.7 KB");
    assert_eq!(texts[3], "0.jpg (JPG)");
    assert_eq!(texts[8], "  ...");
    assert_eq!(texts[9], "  +7 more files");
    assert_eq!(texts[11], "Compressing...");
    assert_eq!(texts[12], "Converting 2.jpg...");
    assert_eq!(texts[14], "[██████████░░░░░░░░░░] 50% (3/12)");
}

#[test]
fn file_rows_for_entries() {
    let (name_width, exif_width) = list_columns(100);
    assert_eq!((name_width, exif_width), (27, 20));
    assert_eq!(list_columns(50), (20, 15));
    let header = tui_img::list_header(4, 4);
    assert_eq!(header[1], "NAME");
    assert_eq!(header[3], "       DIM");
    let parent = tui_img::file_row(&ImageFile::new_parent(), true, 6, 4);
    assert_eq!(parent.tone, tui_img::RowTone::Selected);
    assert_eq!(parent.icon, "<  ");
    assert_eq!(parent.name, "..    ");
    assert_eq!(parent.dims, " ".repeat(10));
    let mut file = image_entry("/pics/holiday_photo.jpeg", 1536);
    file.dimensions = Some((1920, 1080));
    file.queued = true;
    let row = tui_img::file_row(&file, false, 10, 6);
    assert_eq!(row.tone, tui_img::RowTone::Queued);
    assert_eq!(row.name, "holiday...[Q]");
    assert_eq!(row.dims, " 1920x1080");
    assert_eq!(row.size, " 1.5 KB");
    assert_eq!(row.color, "    —");
    assert_eq!(row.camera, "—     ");
    assert_eq!(row.ext, "JPEG");
    assert!(row.mp_shown);
}

#[test]
fn padding_counts_characters() {
    assert_eq!(pad_right("ab", 4), "ab  ");
    assert_eq!(pad_left("ab", 4), "  ab");
    assert_eq!(pad_left("é", 3), "  é");
    assert_eq!(pad_right("toolong", 3), "toolong");
}

#[test]
fn screen_geometry() {
    assert_eq!(tui_img::popup_rect(100, 30, 20), (30, 12, 40, 5));
    assert_eq!(tui_img::popup_rect(100, 30, 80), (25, 12, 50, 5));
    assert_eq!(tui_img::popup_rect(40, 5, 0), (0, 0, 40, 5));
    assert_eq!(tui_img::main_split(120, true), Some((60, 30, 28)));
    assert_eq!(tui_img::main_split(99, true), None);
    assert_eq!(tui_img::main_split(200, false), None);
    assert_eq!(tui_img::status_hints(true).len(), 2);
    assert_eq!(tui_img::status_hints(false)[4].1, " Switch Panel   │   ");
}

#[test]
fn popup_prefers_errors() {
    let mut app = App::new("/".to_string());
    assert_eq!(app.popup_message(), None);
    app.success_message = Some("done".to_string());
    assert_eq!(app.popup_message(), Some((false, "done".to_string())));
    app.error_message = Some("bad".to_string());
    assert_eq!(app.popup_message(), Some((true, "bad".to_string())));
}

#[test]
fn visible_range_follows_scroll() {
    let mut app = app_with_files(&["/a.jpg", "/b.jpg", "/c.jpg", "/d.jpg"]);
    app.visible_rows = 2;
    app.scroll_offset = 1;
    assert_eq!(app.visible_range(), (1, 3));
    app.scroll_offset = 3;
    assert_eq!(app.visible_range(), (3, 4));
    app.scroll_offset = 9;
    assert_eq!(app.visible_range(), (4, 4));
}

#[test]
fn checked_keys_refuse_faults() {
    let mut app = app_with_files(&["/pics/a.jpg", "/pics/b.jpg"]);
    app.visible_rows = 0;
    assert_eq!(app.handle_key_checked(Key::End, None), None);
    assert_eq!(app.handle_key_checked(Key::Home, None), Some(vec![Effect::LoadExif(0), Effect::PreloadExif { start: 0, count: 10 }]));
    app.input_mode = true;
    app.input_target = SettingOption::OutputDir;
    app.input_buffer = "~".to_string();
    assert_eq!(app.handle_key_checked(Key::Enter, None), Some(vec![]));
    assert_eq!(app.global_output_directory, Some("~".to_string()));
}

#[test]
fn lone_tilde_is_the_home_directory() {
    let mut app = app_with_files(&["/pics/a.jpg"]);
    app.input_mode = true;
    app.input_target = SettingOption::OutputDir;
    app.input_buffer = "~".to_string();
    assert_eq!(app.handle_key_checked(Key::Enter, Some("/home/ann")), Some(vec![]));
    assert_eq!(app.global_output_directory, Some("/home/ann".to_string()));
    assert!(!app.input_mode);
    assert_eq!(resolve_output_directory("~", Some("/home/ann"), "/pics"), "/home/ann");
    assert_eq!(resolve_output_directory("~/out", Some("/home/ann"), "/pics"), "/home/ann/out");
}

#[test]
fn small_state_changes() {
    let mut app = app_with_files(&["/pics/a.jpg"]);
    app.toggle_selected();
    assert!(app.files[0].selected);
    app.toggle_selected();
    assert!(!app.files[0].selected);
    app.default_quality = 60;
    app.apply_default_quality();
    assert_eq!(app.files[0].settings.quality, 60);
    app.cancel_compression();
    assert!(!app.compression_cancelled);
    app.compressing = true;
    app.cancel_compression();
    assert!(app.compression_cancelled);
}

#[test]
fn a_run_ends_idle_after_completion() {
    let mut app = app_with_files(&["/pics/a.jpg"]);
    app.handle_key(Key::Char(' '), None);
    let jobs = app.compress_queue();
    assert_eq!(jobs.len(), 1);
    app.global_output_directory = Some("/elsewhere".to_string());
    let mut tally = BatchTally::new();
    let mut events = vec![CompressionEvent::Started(1)];
    events.extend(tally.record_outcome(0, 1, &jobs[0], Ok((10, "a.jpg".to_string()))));
    events.push(tally.finish());
    let eff = app.process_compression_events(events);
    assert!(eff.is_empty());
    assert!(!app.compressing);
    assert!(app.progress.is_none());
    assert_eq!(app.focused_column, FocusedColumn::Files);
    assert_eq!(app.files[0].size, 10);
    assert!(app.queue.is_empty());
    assert_eq!(app.compression_results.len(), 1);
    assert_eq!(app.success_message, Some("Compressed 1 files, saved 990 B".to_string()));
}

#[test]
fn header_colour_types() {
    let grey = compress_png(&[1u8; 4], 2, 2, PixelLayout::Luma8, &ImageSettings::default()).unwrap();
    assert_eq!(tui_img::fast_color_type(&grey, "PNG"), Some("L".to_string()));
    // The optimizer stores a uniform translucent image as grey with alpha.
    let rgba = compress_png(&[7u8; 16], 2, 2, PixelLayout::Rgba8, &ImageSettings::default()).unwrap();
    assert_eq!(tui_img::fast_color_type(&rgba, "png"), Some("La".to_string()));
    let jpeg = compress_jpeg(&[50u8; 12], 2, 2, &ImageSettings::default()).unwrap();
    assert_eq!(tui_img::fast_color_type(&jpeg, "jpeg"), Some("RGB".to_string()));
    assert_eq!(tui_img::fast_color_type(&jpeg, "gif"), None);
    let webp = compress_webp_lossless(&[30u8; 16], 2, 2);
    assert_eq!(tui_img::fast_color_type(&webp, "WebP"), Some("RGBA".to_string()));
    assert_eq!(tui_img::fast_color_type(b"not an image", "png"), None);
    assert_eq!(tui_img::pixel_type_of_name("Rgba16"), tui_img::PixelColorType::Rgba16);
    assert_eq!(tui_img::pixel_type_of_name("Bgr8"), tui_img::PixelColorType::Other);
}

#[test]
fn listed_images_are_answered_from_the_cache() {
    let mut app = App::new("/pics".to_string());
    app.load_directory(vec![listing("/pics/a.jpg", false, 10, Some(info(3, 4, 7)))]);
    let hit = get_cached_metadata(&app.metadata_cache, "/pics/a.jpg", 7).unwrap();
    assert_eq!(hit.dimensions, Some((3, 4)));
    assert!(get_cached_metadata(&app.metadata_cache, "/pics/a.jpg", 8).is_none());
    assert!(get_cached_metadata(&app.metadata_cache, "/pics/a.jpg", 0).is_none());
    assert!(get_cached_metadata(&app.metadata_cache, "/pics/b.jpg", 7).is_none());
}

#[test]
fn moving_through_the_list_keeps_the_selection_on_screen() {
    let names: Vec<String> = (0..10).map(|i| format!("/pics/{}.jpg", i)).collect();
    let refs: Vec<&str> = names.iter().map(|s| s.as_str()).collect();
    let mut app = app_with_files(&refs);
    app.visible_rows = 3;
    let keys = [
        Key::Down, Key::Down, Key::Down, Key::PageDown, Key::PageDown, Key::End, Key::Up,
        Key::PageUp, Key::PageUp, Key::Down, Key::Home, Key::PageDown, Key::Up,
    ];
    for key in keys {
        app.handle_key(key, None);
        let sel = app.selected_index.unwrap();
        assert!(app.scroll_offset <= sel && sel < app.scroll_offset + app.visible_rows);
    }
    app.handle_key(Key::End, None);
    assert_eq!(app.selected_index, Some(9));
    assert_eq!(app.scroll_offset, 7);
}

#[test]
fn header_sizes_follow_the_path_extension() {
    let jpeg = compress_jpeg(&[50u8; 18], 3, 2, &ImageSettings::default()).unwrap();
    assert_eq!(tui_img::image_dimensions("/pics/a.jpg", &jpeg), Some((3, 2)));
    assert_eq!(tui_img::image_dimensions("/pics/a.JPEG", &jpeg), Some((3, 2)));
    assert_eq!(tui_img::image_dimensions("/pics/a", &jpeg), None);
    assert_eq!(tui_img::image_dimensions("/pics/a.png", &jpeg), None);
    assert_eq!(tui_img::image_dimensions("/pics/a.jpg", b"garbage"), None);
    let info = CachedImageInfo::from_header("/pics/a.jpg", &jpeg, 42);
    assert_eq!(info.dimensions, Some((3, 2)));
    assert_eq!(info.color_type, Some("RGB".to_string()));
    assert_eq!(info.file_mtime, 42);
    let none = CachedImageInfo::from_header("/pics/noext", &jpeg, 1);
    assert_eq!(none.dimensions, None);
    assert_eq!(none.color_type, None);
}

#[test]
fn camera_metadata_from_bytes() {
    let model = exif::Field {
        tag: exif::Tag::Model,
        ifd_num: exif::In::PRIMARY,
        value: exif::Value::Ascii(vec![b"Cam".to_vec()]),
    };
    let exposure = exif::Field {
        tag: exif::Tag::ExposureTime,
        ifd_num: exif::In::PRIMARY,
        value: exif::Value::Rational(vec![exif::Rational { num: 1, denom: 250 }]),
    };
    let mut writer = exif::experimental::Writer::new();
    writer.push_field(&model);
    writer.push_field(&exposure);
    let mut buf = std::io::Cursor::new(Vec::new());
    writer.write(&mut buf, false).unwrap();
    let data = ExifData::read_from_bytes(buf.get_ref()).unwrap();
    assert_eq!(data.camera, Some("\"Cam\"".to_string()));
    assert_eq!(data.exposure, Some("1/250".to_string()));
    assert_eq!(data.lens, None);
    assert_eq!(data.flash, None);
    assert!(ExifData::read_from_bytes(b"no metadata here").is_none());
    let jpeg = compress_jpeg(&[50u8; 12], 2, 2, &ImageSettings::default()).unwrap();
    assert!(ExifData::read_from_bytes(&jpeg).is_none());
}

#[test]
fn a_whole_run_sends_its_events_in_order() {
    let jobs = vec![job(3, "a.jpg", 1000), job(4, "b.png", 500)];
    let outcomes: Vec<tui_img::JobOutcome> = vec![Ok((400, "a.jpg".to_string())), Err("bad".to_string())];
    let events = tui_img::run_events(&jobs, &outcomes);
    assert_eq!(events.len(), 8);
    assert!(matches!(events[0], CompressionEvent::Started(2)));
    match &events[1] {
        CompressionEvent::Stage(s) => assert_eq!(s, "Converting a.jpg..."),
        _ => panic!("stage expected"),
    }
    match &events[2] {
        CompressionEvent::Stage(s) => assert_eq!(s, "Compressing to a.jpg..."),
        _ => panic!("stage expected"),
    }
    assert!(matches!(events[3], CompressionEvent::Progress { current: 1, total: 2, sub_progress: 100, .. }));
    match &events[4] {
        CompressionEvent::FileCompleted(r) => assert_eq!((r.file_index, r.new_size), (3, 400)),
        _ => panic!("result expected"),
    }
    match &events[5] {
        CompressionEvent::Stage(s) => assert_eq!(s, "Converting b.png..."),
        _ => panic!("stage expected"),
    }
    match &events[6] {
        CompressionEvent::FileCompleted(r) => assert_eq!((r.file_index, r.error.as_deref()), (4, Some("bad"))),
        _ => panic!("result expected"),
    }
    match &events[7] {
        CompressionEvent::Completed { success_count, total_saved, results } => {
            assert_eq!((*success_count, *total_saved, results.len()), (1, 600, 2));
            assert_eq!(results[0].file_index, 3);
            assert_eq!(results[1].file_index, 4);
        }
        _ => panic!("completion expected"),
    }
}

#[test]
fn paths_are_compared_by_components() {
    assert_eq!(tui_img::path_key("/a//b/"), "/a/b");
    assert_eq!(tui_img::path_key("a/./b"), "a/b");
    assert_eq!(tui_img::path_key("./a"), "./a");
    assert_eq!(tui_img::path_key("."), ".");
    assert_eq!(tui_img::path_key(""), "");
    assert_eq!(tui_img::path_key("/"), "/");
    assert_eq!(tui_img::path_key("//a"), "/a");
    assert_eq!(tui_img::path_key("a/../b"), "a/../b");
    let mut app = App::new("/pics".to_string());
    app.load_directory(vec![listing("/pics/a.jpg", false, 10, Some(info(3, 4, 7)))]);
    assert!(get_cached_metadata(&app.metadata_cache, "/pics//a.jpg", 7).is_some());
    assert!(get_cached_metadata(&app.metadata_cache, "/pics/./a.jpg", 7).is_some());
    assert!(get_cached_metadata(&app.metadata_cache, "/pics/b/../a.jpg", 7).is_none());
}

#[test]
fn joining_paths() {
    assert_eq!(tui_img::path_join("/pics", "a.jpg"), "/pics/a.jpg");
    assert_eq!(tui_img::path_join("/pics/", "a.jpg"), "/pics/a.jpg");
    assert_eq!(tui_img::path_join("", "a.jpg"), "a.jpg");
    assert_eq!(tui_img::path_join("/pics", "/out"), "/out");
    assert_eq!(tui_img::path_join("/pics", ""), "/pics/");
}

#[test]
fn quality_entry_only_where_the_panel_draws_it() {
    let file = image_entry("/pics/a.jpg", 10);
    assert!(!tui_img::show_quality_setting(Some(OutputFormat::Png), Some(&file)));
    assert!(!tui_img::show_quality_setting(Some(OutputFormat::Webp), None));
    assert!(tui_img::show_quality_setting(Some(OutputFormat::Webp), Some(&file)));
    assert!(tui_img::show_quality_setting(Some(OutputFormat::Jpeg), None));
    for format in [Some(OutputFormat::Png), Some(OutputFormat::Webp)] {
        let mut o = SettingOption::Format;
        for _ in 0..20 {
            o = next_setting_down(o, format, None);
            assert_ne!(o, SettingOption::Quality);
        }
    }
}

#[test]
fn settings_up_undoes_down_on_the_panel() {
    let mut app = app_with_files(&["/pics/a.jpg"]);
    app.focused_column = FocusedColumn::ImageSettings;
    for format in [None, Some(OutputFormat::Png), Some(OutputFormat::Webp), Some(OutputFormat::Tga)] {
        app.global_output_format = format;
        app.setting_option = SettingOption::Format;
        for _ in 0..12 {
            let s = app.setting_option;
            app.handle_key(Key::Down, None);
            app.handle_key(Key::Up, None);
            assert_eq!(app.setting_option, s);
            app.handle_key(Key::Up, None);
            app.handle_key(Key::Down, None);
            assert_eq!(app.setting_option, s);
            assert_eq!(app.global_output_format, format);
            app.handle_key(Key::Down, None);
        }
    }
}

#[test]
fn settings_stay_in_their_ranges() {
    let mut app = app_with_files(&["/pics/a.jpg"]);
    app.focused_column = FocusedColumn::ImageSettings;
    app.setting_option = SettingOption::Quality;
    for _ in 0..30 {
        app.handle_key(Key::Right, None);
    }
    assert_eq!(app.files[0].settings.quality, 100);
    assert_eq!(app.default_quality, 100);
    app.setting_option = SettingOption::MaxWidth;
    for _ in 0..150 {
        app.handle_key(Key::Right, None);
    }
    assert_eq!(app.files[0].settings.max_width, Some(10000));
    app.global_output_format = Some(OutputFormat::Png);
    app.setting_option = SettingOption::PngCompress;
    for _ in 0..12 {
        app.handle_key(Key::Right, None);
    }
    assert_eq!(app.files[0].settings.png_compression, 9);
}

fn png_source(width: u32, height: u32) -> Vec<u8> {
    let pixels = vec![90u8; (width * height * 3) as usize];
    compress_png(&pixels, width, height, PixelLayout::Rgb8, &ImageSettings::default()).unwrap()
}

#[test]
fn a_job_is_decoded_resized_and_encoded() {
    let source = png_source(40, 20);
    let mut j = job(0, "a.png", source.len() as u64);
    j.source_path = "/pics/a.png".to_string();
    j.output_path = "/out/a.png".to_string();
    j.settings.max_width = Some(10);
    let pic = tui_img::open_job_source(&j, &source).unwrap();
    assert_eq!(pic.size(), (40, 20));
    let (base, out) = tui_img::compress_job(&j, Some(OutputFormat::Jpeg), pic, 5).unwrap();
    assert_eq!(base, "/out/a.jpg");
    match out {
        tui_img::Encoded::Bytes(v) => {
            assert_eq!(&v[..2], &[0xFF, 0xD8]);
            assert_eq!(tui_img::image_dimensions("/out/a.jpg", &v), Some((10, 5)));
        }
        _ => panic!("bytes expected"),
    }
}

#[test]
fn a_job_keeps_its_format_and_size_when_no_limit_is_hit() {
    let source = png_source(8, 6);
    let mut j = job(0, "a.png", source.len() as u64);
    j.source_path = "/pics/a.png".to_string();
    j.output_path = "/out/a.png".to_string();
    let pic = tui_img::open_job_source(&j, &source).unwrap();
    let (base, out) = tui_img::compress_job(&j, None, pic, 0).unwrap();
    assert_eq!(base, "/out/a.png");
    match out {
        tui_img::Encoded::Bytes(v) => assert_eq!(tui_img::image_dimensions("/out/a.png", &v), Some((8, 6))),
        _ => panic!("bytes expected"),
    }
}

#[test]
fn lossy_webp_is_left_to_the_caller() {
    let source = png_source(4, 3);
    let mut j = job(0, "a.png", source.len() as u64);
    j.source_path = "/pics/a.png".to_string();
    let pic = tui_img::open_job_source(&j, &source).unwrap();
    match tui_img::compress_job(&j, Some(OutputFormat::Webp), pic, 0).unwrap().1 {
        tui_img::Encoded::LossyWebp { rgba, width, height, quality } => {
            assert_eq!((width, height, quality), (4, 3, 85));
            assert_eq!(rgba.len(), 4 * 3 * 4);
        }
        _ => panic!("lossy webp expected"),
    }
}

#[test]
fn undecodable_sources_fail_to_open() {
    let mut j = job(0, "a.png", 3);
    j.source_path = "/pics/a.png".to_string();
    let err = tui_img::open_job_source(&j, b"not a png").err().unwrap();
    assert_eq!(err.message(), "Failed to open image");
    j.source_path = "/pics/noext".to_string();
    assert!(tui_img::open_job_source(&j, &png_source(2, 2)).is_err());
}

#[test]
fn direct_conversion_refuses_same() {
    let source = png_source(3, 3);
    let pic = tui_img::Picture::open("png", &source).unwrap();
    let err = tui_img::compress_picture_direct(&pic, OutputFormat::Same, 80, false).err().unwrap();
    assert_eq!(err.message(), "Cannot use OutputFormat::Same for compression");
    match tui_img::compress_picture_direct(&pic, OutputFormat::Bmp, 80, false).unwrap() {
        tui_img::Encoded::Bytes(v) => assert_eq!(&v[..2], b"BM"),
        _ => panic!("bytes expected"),
    }
}

#[test]
fn path_operations_agree_with_std() {
    let samples = [
        "", "/", "//", ".", "./", "..", "../", "a", "a/", "a//", "/a", "/a/", "/a/b", "/a/b/", "a/b/c",
        "a/./b", "a/.", "a/./", "./a", "./a/b", "a/..", "/a/../b", "a//b///", "/.", "/./a", ".hidden",
        "a/.hidden", "x.tar.gz", "/pics/photo.JPG", "./.", "..a", "a/..b",
    ];
    for p in samples {
        let std_parent = std::path::Path::new(p).parent().map(|q| q.to_string_lossy().into_owned());
        assert_eq!(tui_img::path_parent(p), std_parent, "parent of {:?}", p);
        for name in ["n.png", "", "/abs"] {
            let std_with = std::path::Path::new(p).with_file_name(name).to_string_lossy().into_owned();
            assert_eq!(tui_img::path_with_file_name(p, name), std_with, "with_file_name({:?}, {:?})", p, name);
        }
        for q in ["b", "", "/c", "./d"] {
            let std_join = std::path::Path::new(p).join(q).to_string_lossy().into_owned();
            assert_eq!(tui_img::path_join(p, q), std_join, "join({:?}, {:?})", p, q);
        }
        for q in samples {
            let same = std::path::Path::new(p) == std::path::Path::new(q);
            assert_eq!(tui_img::path_key(p) == tui_img::path_key(q), same, "eq({:?}, {:?})", p, q);
        }
    }
}

fn two_frame_gif() -> Vec<u8> {
    let mut out = Vec::new();
    {
        let mut enc = gif::Encoder::new(&mut out, 4, 3, &[]).unwrap();
        enc.set_repeat(gif::Repeat::Infinite).unwrap();
        for (shade, delay) in [(10u8, 5u16), (200u8, 20u16)] {
            let mut px = vec![shade; 4 * 3 * 4];
            for a in px.iter_mut().skip(3).step_by(4) {
                *a = 255;
            }
            let mut frame = gif::Frame::from_rgba(4, 3, &mut px);
            frame.delay = delay;
            enc.write_frame(&frame).unwrap();
        }
    }
    out
}

#[test]
fn gif_frames_are_read_with_their_delays() {
    let frames = tui_img::animation_frames("gif", &two_frame_gif()).unwrap();
    assert_eq!(frames.len(), 2);
    let (pictures, delays) = tui_img::split_frames(frames);
    assert_eq!(delays, vec![50, 200]);
    assert_eq!(pictures[0].size(), (4, 3));
    assert_eq!(pictures[1].size(), (4, 3));
}

#[test]
fn frame_sources_are_checked() {
    let err = tui_img::animation_frames("bmp", b"x").err().unwrap();
    assert_eq!(err.message(), "Frame extraction not supported for .bmp");
    assert_eq!(tui_img::animation_frames("gif", b"not a gif").err().unwrap().message(), "Failed to decode GIF");
    assert_eq!(tui_img::animation_frames("webp", b"not a webp").err().unwrap().message(), "Failed to decode WebP");
    assert_eq!(tui_img::animation_frames("png", b"not a png").err().unwrap().message(), "Failed to decode PNG");
    let still = png_source(5, 2);
    let frames = tui_img::animation_frames("png", &still).unwrap();
    assert_eq!(frames.len(), 1);
    assert_eq!(frames[0].delay_ms, 100);
}

fn converted(format: OutputFormat, source_ext: &str, source: &[u8]) -> (String, OutputFormat, Vec<u8>) {
    let frames = tui_img::animation_frames(source_ext, source).unwrap();
    let (pictures, delays) = tui_img::split_frames(frames);
    let scaled = vec![0; pictures.len()];
    tui_img::convert_animation("/out/anim.gif", &ImageSettings::default(), Some(format), source_ext, pictures, &delays, &scaled)
        .unwrap()
}

#[test]
fn animations_convert_between_formats() {
    let gif_bytes = two_frame_gif();
    let (base, fmt, bytes) = converted(OutputFormat::Gif, "gif", &gif_bytes);
    assert_eq!((base.as_str(), fmt), ("/out/anim.gif", OutputFormat::Gif));
    assert_eq!(&bytes[..6], b"GIF89a");
    assert_eq!(tui_img::animation_frames("gif", &bytes).unwrap().len(), 2);
    let (base, fmt, bytes) = converted(OutputFormat::Png, "gif", &gif_bytes);
    assert_eq!((base.as_str(), fmt), ("/out/anim.png", OutputFormat::Png));
    assert_eq!(&bytes[..8], &[0x89, b'P', b'N', b'G', 0x0D, 0x0A, 0x1A, 0x0A]);
    assert!(bytes.windows(4).any(|w| w == b"acTL"));
    assert_eq!(tui_img::animation_frames("png", &bytes).unwrap().len(), 2);
    let (base, fmt, bytes) = converted(OutputFormat::Webp, "gif", &gif_bytes);
    assert_eq!((base.as_str(), fmt), ("/out/anim.webp", OutputFormat::Webp));
    assert_eq!(&bytes[..4], b"RIFF");
    assert_eq!(&bytes[8..12], b"WEBP");
    let (_, fmt, _) = converted(OutputFormat::Same, "gif", &gif_bytes);
    assert_eq!(fmt, OutputFormat::Gif);
}

#[test]
fn still_targets_are_not_animations() {
    let frames = tui_img::animation_frames("gif", &two_frame_gif()).unwrap();
    let (pictures, delays) = tui_img::split_frames(frames);
    let err = tui_img::convert_animation("/out/a.gif", &ImageSettings::default(), Some(OutputFormat::Jpeg), "gif", pictures, &delays, &vec![0, 0])
        .err()
        .unwrap();
    assert_eq!(err.message(), "convert_animated called with non-animation format");
    assert_eq!(tui_img::animated_target(None, OutputFormat::Same, "webp"), OutputFormat::Webp);
    assert_eq!(tui_img::animated_target(None, OutputFormat::Same, "jpg"), OutputFormat::Same);
    assert_eq!(tui_img::assembly_target(Some(OutputFormat::Tga), OutputFormat::Png), OutputFormat::Gif);
    assert_eq!(tui_img::assembly_target(None, OutputFormat::Webp), OutputFormat::Webp);
}

#[test]
fn frames_of_different_sizes_are_assembled() {
    let a = tui_img::open_frame("/f/frame_001.png", &png_source(6, 4)).unwrap();
    let b = tui_img::open_frame("/f/frame_002.png", &png_source(3, 2)).unwrap();
    let delays = tui_img::frame_delays(Some("120\n  30 \r\nx\n"), 2);
    assert_eq!(delays, vec![120, 30]);
    let (base, fmt, bytes) = tui_img::assemble_frames("/out/a.png", &ImageSettings::default(), Some(OutputFormat::Gif), vec![a, b], &delays, &vec![0, 0])
        .unwrap();
    assert_eq!((base.as_str(), fmt), ("/out/a.gif", OutputFormat::Gif));
    let frames = tui_img::animation_frames("gif", &bytes).unwrap();
    assert_eq!(frames.len(), 2);
    assert_eq!(frames[1].picture.size(), (6, 4));
    let a = tui_img::open_frame("/f/frame_001.png", &png_source(6, 4)).unwrap();
    let b = tui_img::open_frame("/f/frame_002.png", &png_source(3, 2)).unwrap();
    let err = tui_img::assemble_frames("/out/a.png", &ImageSettings::default(), Some(OutputFormat::Webp), vec![a, b], &delays, &vec![0, 0])
        .err()
        .unwrap();
    assert_eq!(err.message(), "Animated WebP frames differ in size");
    assert!(tui_img::open_frame("/f/frame.png", b"junk").is_err());
}

#[test]
fn delays_files_and_frame_files() {
    assert_eq!(tui_img::parse_delays("10\n20\n\n 30\t\n+40\n-5\n60"), vec![10, 20, 30, 40, 60]);
    assert_eq!(tui_img::parse_delays(""), Vec::<u32>::new());
    assert_eq!(tui_img::parse_delays("7\r\n8\r"), vec![7, 8]);
    assert_eq!(tui_img::frame_delays(None, 3), vec![100, 100, 100]);
    assert!(tui_img::keep_frame_file("/f/frame_001.png"));
    assert!(tui_img::keep_frame_file("/f/frame_001.gif"));
    assert!(!tui_img::keep_frame_file("/f/delays.txt"));
    assert!(!tui_img::keep_frame_file("/f/frame_001.PNG"));
    assert_eq!(tui_img::animation_output_name("/out/a.gif", OutputFormat::Gif), "a.gif");
    assert_eq!(tui_img::animation_output_name("/", OutputFormat::Webp), "output.webp");
}

#[test]
fn extracted_frame_files() {
    assert_eq!(tui_img::frame_file_name(1, "png"), "frame_001.png");
    assert_eq!(tui_img::frame_file_name(42, "gif"), "frame_042.gif");
    assert_eq!(tui_img::frame_file_name(1234, "webp"), "frame_1234.webp");
    assert_eq!(tui_img::frames_ext(None, OutputFormat::Same, Some("gif")), "gif");
    assert_eq!(tui_img::frames_ext(None, OutputFormat::Same, None), "png");
    assert_eq!(tui_img::frames_ext(Some(OutputFormat::Webp), OutputFormat::Same, Some("gif")), "webp");
    assert_eq!(tui_img::frames_dir_name("/pics", "anim", 0), "/pics/anim_frames");
    assert_eq!(tui_img::frames_dir_name("/pics", "anim", 1), "/pics/anim_frames_2");
    assert_eq!(tui_img::frames_dir_name("/pics", "anim", 2), "/pics/anim_frames_3");
    assert_eq!(tui_img::delays_text(&vec![50, 200]), "50\n200\n");
    assert_eq!(tui_img::parse_delays(&tui_img::delays_text(&vec![50, 200])), vec![50, 200]);
    let frames = tui_img::animation_frames("gif", &two_frame_gif()).unwrap();
    let (pictures, _) = tui_img::split_frames(frames);
    for (pic, ext, head) in pictures.into_iter().zip([("png", &b"\x89PNG"[..]), ("gif", &b"GIF8"[..])]).map(|(p, (e, h))| (p, e, h)) {
        let bytes = tui_img::frame_file(pic, &ImageSettings::default(), 0, ext).unwrap().unwrap();
        assert_eq!(&bytes[..4], head);
    }
}
