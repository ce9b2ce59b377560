use std::collections::HashSet;
use tui_img::{
    bytes_to_human, color_type_str, get_cached_metadata,
    path_to_tilde, truncate_str, App, CachedImageInfo, ColorSpace, ExifData, FocusedColumn,
    ImageFile, ImageSettings, OutputFormat, PathMap, PixelColorType, SettingOption,
};

const HOME: &str = "/home/user";

fn image_entry(path: &str) -> ImageFile {
    ImageFile::new_lightweight(path.to_string(), false, 0)
}

#[test]
fn test_bytes_to_human() {
    assert_eq!(bytes_to_human(0), "0 B");
    assert_eq!(bytes_to_human(500), "500 B");
    assert_eq!(bytes_to_human(1024), "1.0 KB");
    assert_eq!(bytes_to_human(1536), "1.5 KB");
    assert_eq!(bytes_to_human(1048576), "1.0 MB");
    assert_eq!(bytes_to_human(1572864), "1.5 MB");
    assert_eq!(bytes_to_human(1073741824), "1.0 GB");
}

#[test]
fn test_output_format_extension() {
    assert_eq!(OutputFormat::Same.extension(), "");
    assert_eq!(OutputFormat::Jpeg.extension(), "jpg");
    assert_eq!(OutputFormat::Png.extension(), "png");
    assert_eq!(OutputFormat::Webp.extension(), "webp");
    assert_eq!(OutputFormat::Gif.extension(), "gif");
    assert_eq!(OutputFormat::Tiff.extension(), "tiff");
    assert_eq!(OutputFormat::Bmp.extension(), "bmp");
    assert_eq!(OutputFormat::Tga.extension(), "tga");
}

#[test]
fn test_output_format_from_extension() {
    assert_eq!(OutputFormat::from_extension("jpg"), Some(OutputFormat::Jpeg));
    assert_eq!(OutputFormat::from_extension("jpeg"), Some(OutputFormat::Jpeg));
    assert_eq!(OutputFormat::from_extension("png"), Some(OutputFormat::Png));
    assert_eq!(OutputFormat::from_extension("webp"), Some(OutputFormat::Webp));
    assert_eq!(OutputFormat::from_extension("gif"), Some(OutputFormat::Gif));
    assert_eq!(OutputFormat::from_extension("tiff"), Some(OutputFormat::Tiff));
    assert_eq!(OutputFormat::from_extension("bmp"), Some(OutputFormat::Bmp));
    assert_eq!(OutputFormat::from_extension("tga"), Some(OutputFormat::Tga));
    assert_eq!(OutputFormat::from_extension("unknown"), None);
    assert_eq!(OutputFormat::from_extension("JPG"), Some(OutputFormat::Jpeg));
}

#[test]
fn test_color_space_as_str() {
    assert_eq!(ColorSpace::Rgb.as_str(), "RGB");
    assert_eq!(ColorSpace::Grayscale.as_str(), "Grayscale");
    assert_eq!(ColorSpace::Rgba.as_str(), "RGBA");
}

#[test]
fn test_truncate_str() {
    assert_eq!(truncate_str("short", 10), "short");
    assert_eq!(truncate_str("exactly10!", 10), "exactly10!");
    assert_eq!(truncate_str("this is a long string", 10), "this is...");
    assert_eq!(truncate_str("1234567890", 5), "12...");
    assert_eq!(truncate_str("abc", 10), "abc");
}

#[test]
fn test_image_file_new_parent() {
    let file = ImageFile::new_parent();
    assert!(file.is_dir);
    assert!(file.is_parent);
    assert_eq!(file.name, "..");
    assert!(!file.needs_exif);
    assert!(file.exif_data.is_none());
}

#[test]
fn test_image_settings_default() {
    let settings = ImageSettings::default();
    assert_eq!(settings.quality, 85);
    assert_eq!(settings.color_space, ColorSpace::Rgb);
    assert!(settings.remove_exif);
    assert_eq!(settings.output_format, OutputFormat::Same);
    assert!(settings.output_directory.is_none());
    assert!(!settings.progressive);
    assert!(settings.max_width.is_none());
    assert!(settings.max_height.is_none());
    assert_eq!(settings.png_compression, 6);
    assert!(!settings.webp_lossless);
    assert!(!settings.overwrite);
    assert!(!settings.backup);
}

#[test]
fn test_image_file_extension() {
    let file = image_entry("/test/image.jpg");
    assert_eq!(file.extension(), Some("jpg".to_string()));
}

#[test]
fn test_image_file_extension_uppercase() {
    let file = image_entry("/test/image.PNG");
    assert_eq!(file.extension(), Some("png".to_string()));
}

#[test]
fn test_image_file_format_name() {
    let file = image_entry("/test/image.webp");
    assert_eq!(file.format_name(), "WEBP");
}

#[test]
fn test_image_file_size_str_directory() {
    let file = ImageFile::new_parent();
    assert_eq!(file.size_str(), "");
}

#[test]
fn test_image_file_dimensions_str_none() {
    let file = image_entry("/test/image.jpg");
    assert_eq!(file.dimensions_str(), "");
}

#[test]
fn test_image_file_dimensions_str_some() {
    let mut file = ImageFile::new_parent();
    file.dimensions = Some((1920, 1080));
    assert_eq!(file.dimensions_str(), "1920×1080");
}

#[test]
fn test_output_format_as_str() {
    assert_eq!(OutputFormat::Same.as_str(), "Same");
    assert_eq!(OutputFormat::Jpeg.as_str(), "JPEG");
    assert_eq!(OutputFormat::Png.as_str(), "PNG");
    assert_eq!(OutputFormat::Webp.as_str(), "WebP");
    assert_eq!(OutputFormat::Gif.as_str(), "GIF");
    assert_eq!(OutputFormat::Tiff.as_str(), "TIFF");
    assert_eq!(OutputFormat::Bmp.as_str(), "BMP");
    assert_eq!(OutputFormat::Tga.as_str(), "TGA");
}

#[test]
fn test_color_type_str() {
    assert_eq!(color_type_str(PixelColorType::Rgb8), "RGB");
    assert_eq!(color_type_str(PixelColorType::Rgba8), "RGBA");
    assert_eq!(color_type_str(PixelColorType::L8), "L");
    assert_eq!(color_type_str(PixelColorType::La8), "La");
    assert_eq!(color_type_str(PixelColorType::L16), "L16");
    assert_eq!(color_type_str(PixelColorType::Rgb16), "RGB16");
}

#[test]
fn test_output_format_supports_quality() {
    assert!(!OutputFormat::Same.supports_quality());
    assert!(OutputFormat::Jpeg.supports_quality());
    assert!(!OutputFormat::Png.supports_quality());
    assert!(OutputFormat::Webp.supports_quality());
    assert!(!OutputFormat::Gif.supports_quality());
    assert!(OutputFormat::Tiff.supports_quality());
    assert!(!OutputFormat::Bmp.supports_quality());
    assert!(!OutputFormat::Tga.supports_quality());
}

#[test]
fn test_is_supported_image() {
    assert!(App::is_supported_image("/test/image.jpg"));
    assert!(App::is_supported_image("/test/image.jpeg"));
    assert!(App::is_supported_image("/test/image.png"));
    assert!(App::is_supported_image("/test/image.webp"));
    assert!(App::is_supported_image("/test/image.gif"));
    assert!(App::is_supported_image("/test/image.tiff"));
    assert!(App::is_supported_image("/test/image.bmp"));
    assert!(App::is_supported_image("/test/image.tga"));
    assert!(!App::is_supported_image("/test/image.raw"));
    assert!(!App::is_supported_image("/test/file.txt"));
    assert!(!App::is_supported_image("/test/noextension"));
}

#[test]
fn test_app_new() {
    let app = App::new(".".to_string());
    assert!(app.files.is_empty());
    assert!(app.queue.is_empty());
    assert!(app.selected_index.is_none());
    assert_eq!(app.default_quality, 85);
    assert!(!app.compressing);
    assert!(app.progress.is_none());
    assert!(!app.input_mode);
    assert!(app.metadata_cache.is_empty());
    assert!(app.exif_cache.is_empty());
    assert_eq!(app.scroll_offset, 0);
    assert_eq!(app.visible_rows, 20);
}

#[test]
fn test_app_update_visible_rows() {
    let mut app = App::new(".".to_string());
    app.files = (0..100).map(|_| ImageFile::new_parent()).collect();

    app.update_visible_rows(40);
    assert_eq!(app.visible_rows, 35);
    assert_eq!(app.scroll_offset, 0);

    app.scroll_offset = 50;
    app.update_visible_rows(40);
    assert_eq!(app.scroll_offset, 50);

    app.scroll_offset = 80;
    app.update_visible_rows(40);
    assert_eq!(app.scroll_offset, 65);
}

#[test]
fn test_app_queue_operations() {
    let mut app = App::new(".".to_string());
    app.files = vec![
        ImageFile::new_parent(),
        image_entry("/test/1.jpg"),
        image_entry("/test/2.jpg"),
        image_entry("/test/3.jpg"),
    ];
    app.files[1].size = 100;
    app.files[2].size = 200;
    app.files[3].size = 300;

    assert_eq!(app.queue_size(), 0);

    app.queue.push(1);
    app.queue.push(2);
    app.files[1].queued = true;
    app.files[2].queued = true;
    assert_eq!(app.queue_size(), 300);

    app.clear_queue();
    assert_eq!(app.queue_size(), 0);
    assert!(!app.files[1].queued);
    assert!(!app.files[2].queued);
}

#[test]
fn test_truncate_str_unicode() {
    assert_eq!(truncate_str("日本語テスト", 5), "日本...");
    assert_eq!(truncate_str("hello", 0), "...");
    assert_eq!(truncate_str("", 10), "");
}

#[test]
fn test_bytes_to_human_edge_cases() {
    assert_eq!(bytes_to_human(1), "1 B");
    assert_eq!(bytes_to_human(1023), "1023 B");
    assert_eq!(bytes_to_human(1048575), "1024.0 KB");
    assert_eq!(bytes_to_human(1073741824), "1.0 GB");
    assert_eq!(bytes_to_human(1099511627776), "1024.0 GB");
}

#[test]
fn test_exif_data_empty() {
    let exif = ExifData {
        camera: None,
        lens: None,
        date_taken: None,
        exposure: None,
        iso: None,
        aperture: None,
        focal_length: None,
        flash: None,
    };
    assert!(exif.camera.is_none());
}

#[test]
fn test_cached_image_info() {
    let info = CachedImageInfo {
        dimensions: Some((1920, 1080)),
        color_type: Some("RGB".to_string()),
        file_mtime: 1234567890,
    };
    assert_eq!(info.dimensions, Some((1920, 1080)));
    assert_eq!(info.color_type, Some("RGB".to_string()));
    assert_eq!(info.file_mtime, 1234567890);
}

#[test]
fn test_get_cached_metadata_empty_cache() {
    let cache: PathMap<CachedImageInfo> = PathMap::new();
    // The modification time of a file that does not exist reads as 0.
    let result = get_cached_metadata(&cache, "/test/file.jpg", 0);
    assert!(result.is_none());
}

#[test]
fn test_image_settings_max_width() {
    let mut settings = ImageSettings::default();
    assert!(settings.max_width.is_none());

    settings.max_width = Some(1920);
    assert_eq!(settings.max_width, Some(1920));

    settings.max_width = Some(3840);
    assert_eq!(settings.max_width, Some(3840));

    settings.max_width = None;
    assert!(settings.max_width.is_none());
}

#[test]
fn test_image_settings_max_height() {
    let mut settings = ImageSettings::default();
    assert!(settings.max_height.is_none());

    settings.max_height = Some(1080);
    assert_eq!(settings.max_height, Some(1080));

    settings.max_height = Some(2160);
    assert_eq!(settings.max_height, Some(2160));

    settings.max_height = None;
    assert!(settings.max_height.is_none());
}

#[test]
fn test_image_settings_all_fields() {
    let mut settings = ImageSettings::default();

    settings.quality = 75;
    assert_eq!(settings.quality, 75);

    settings.color_space = ColorSpace::Rgba;
    assert_eq!(settings.color_space, ColorSpace::Rgba);

    settings.remove_exif = false;
    assert!(!settings.remove_exif);

    settings.output_format = OutputFormat::Webp;
    assert_eq!(settings.output_format, OutputFormat::Webp);

    settings.output_directory = Some("/output".to_string());
    assert_eq!(settings.output_directory, Some("/output".to_string()));

    settings.progressive = true;
    assert!(settings.progressive);

    settings.max_width = Some(800);
    settings.max_height = Some(600);
    assert_eq!(settings.max_width, Some(800));
    assert_eq!(settings.max_height, Some(600));

    settings.png_compression = 9;
    assert_eq!(settings.png_compression, 9);

    settings.webp_lossless = true;
    assert!(settings.webp_lossless);

    settings.overwrite = false;
    assert!(!settings.overwrite);

    settings.backup = true;
    assert!(settings.backup);
}

#[test]
fn test_aspect_ratio_calculation() {
    let orig_w: u32 = 1920;
    let orig_h: u32 = 1080;
    let new_width: u32 = 960;

    let aspect = orig_h as f64 / orig_w as f64;
    let expected_height = (new_width as f64 * aspect) as u32;

    assert_eq!(expected_height, 540);
}

#[test]
fn test_color_space_cycling() {
    let mut settings = ImageSettings::default();
    assert_eq!(settings.color_space, ColorSpace::Rgb);

    settings.color_space = ColorSpace::Rgba;
    assert_eq!(settings.color_space, ColorSpace::Rgba);

    settings.color_space = ColorSpace::Grayscale;
    assert_eq!(settings.color_space, ColorSpace::Grayscale);

    settings.color_space = ColorSpace::Rgb;
    assert_eq!(settings.color_space, ColorSpace::Rgb);
}

#[test]
fn test_quality_bounds() {
    let mut settings = ImageSettings::default();

    settings.quality = 0;
    assert_eq!(settings.quality, 0);

    settings.quality = 100;
    assert_eq!(settings.quality, 100);

    settings.quality = 50;
    assert_eq!(settings.quality, 50);
}

#[test]
fn test_png_compression_bounds() {
    let mut settings = ImageSettings::default();

    assert_eq!(settings.png_compression, 6);

    settings.png_compression = 0;
    assert_eq!(settings.png_compression, 0);

    settings.png_compression = 9;
    assert_eq!(settings.png_compression, 9);
}

#[test]
fn test_image_settings_clone() {
    let mut settings = ImageSettings::default();
    settings.quality = 75;
    settings.max_width = Some(1920);

    let cloned = settings.clone();
    assert_eq!(cloned.quality, 75);
    assert_eq!(cloned.max_width, Some(1920));

    let mut cloned_mut = settings.clone();
    cloned_mut.quality = 50;
    assert_eq!(settings.quality, 75);
    assert_eq!(cloned_mut.quality, 50);
}

#[test]
fn test_settings_navigation_down_jpeg() {
    let mut app = App::new(".".to_string());
    app.files.push(image_entry("/test/image.jpg"));
    app.focused_column = FocusedColumn::ImageSettings;
    app.setting_option = SettingOption::Format;
    app.global_output_format = Some(OutputFormat::Jpeg);

    let expected = vec![
        SettingOption::Format,
        SettingOption::Quality,
        SettingOption::Color,
        SettingOption::Exif,
        SettingOption::MaxWidth,
        SettingOption::MaxHeight,
        SettingOption::Overwrite,
        SettingOption::Backup,
        SettingOption::OutputDir,
    ];

    for exp in expected {
        assert_eq!(app.setting_option, exp);
        match app.setting_option {
            SettingOption::Format => app.setting_option = SettingOption::Quality,
            SettingOption::Quality => app.setting_option = SettingOption::Color,
            SettingOption::Color => app.setting_option = SettingOption::Exif,
            SettingOption::Exif => app.setting_option = SettingOption::MaxWidth,
            SettingOption::MaxWidth => app.setting_option = SettingOption::MaxHeight,
            SettingOption::MaxHeight => app.setting_option = SettingOption::Overwrite,
            SettingOption::Overwrite => app.setting_option = SettingOption::Backup,
            SettingOption::Backup => app.setting_option = SettingOption::OutputDir,
            SettingOption::OutputDir => app.setting_option = SettingOption::Format,
            _ => {}
        }
    }
    assert_eq!(app.setting_option, SettingOption::Format);
}

#[test]
fn test_multiple_files_with_global_output_dir() {
    let mut app = App::new(".".to_string());
    app.files.push(image_entry("/source/img1.jpg"));
    app.files.push(image_entry("/source/img2.jpg"));
    app.files.push(image_entry("/source/img3.jpg"));

    app.global_output_directory = Some("/output".to_string());

    app.files[0].queued = true;
    app.files[1].queued = true;
    app.files[2].queued = true;
    app.queue.push(0);
    app.queue.push(1);
    app.queue.push(2);

    let queue_copy = app.compress_queue();

    assert_eq!(queue_copy.len(), 3);
    assert_eq!(queue_copy[0].output_path, "/output/img1.jpg");
    assert_eq!(queue_copy[1].output_path, "/output/img2.jpg");
    assert_eq!(queue_copy[2].output_path, "/output/img3.jpg");
}

#[test]
fn test_path_to_tilde() {
    let path_in_home = format!("{}/images/output", HOME);
    assert_eq!(path_to_tilde(&path_in_home, Some(HOME)), "~/images/output");

    assert_eq!(path_to_tilde(HOME, Some(HOME)), "~");

    assert_eq!(path_to_tilde("/tmp/other", Some(HOME)), "/tmp/other");
}

#[test]
fn test_output_dir_save_and_display() {
    let mut app = App::new(".".to_string());
    app.files.push(image_entry("/test/image.jpg"));
    app.selected_index = Some(0);

    let input_path = format!("{}/images/output", HOME);
    app.files[0].settings.output_directory = Some(input_path);

    let displayed = path_to_tilde(app.files[0].settings.output_directory.as_ref().unwrap(), Some(HOME));
    assert_eq!(displayed, "~/images/output");
}

#[test]
fn test_output_dir_in_compression() {
    let mut app = App::new(".".to_string());
    app.files.push(image_entry("/source/image.jpg"));
    app.files[0].settings.output_directory = Some("/home/user/Downloads".to_string());
    app.queue.push(0);
    app.files[0].queued = true;

    let queue_copy = app.compress_queue();

    assert_eq!(queue_copy.len(), 1);
    assert_eq!(queue_copy[0].output_path, "/home/user/Downloads/image.jpg");
    assert_eq!(queue_copy[0].source_path, "/source/image.jpg");
}

#[test]
fn test_output_dir_full_flow() {
    let mut app = App::new(".".to_string());
    app.files.push(image_entry("/test/image.jpg"));
    app.selected_index = Some(0);
    app.current_dir = "/test".to_string();

    app.input_buffer = "~/Downloads".to_string();
    app.input_target = SettingOption::OutputDir;
    app.setting_option = SettingOption::OutputDir;

    let final_path = tui_img::resolve_output_directory(&app.input_buffer, Some(HOME), &app.current_dir);

    let mut st = app.selected_settings();
    st.output_directory = Some(final_path.clone());
    app.set_selected_settings(st);

    app.queue.push(0);
    app.files[0].queued = true;

    let jobs = app.compress_queue();

    assert_eq!(jobs[0].output_path, format!("{}/Downloads/image.jpg", HOME));
    assert_eq!(app.files[0].settings.output_directory, Some(format!("{}/Downloads", HOME)));
}

#[test]
fn test_output_dir_tilde_input_flow() {
    let mut app = App::new(".".to_string());
    app.files.push(image_entry("/test/image.jpg"));
    app.selected_index = Some(0);
    app.current_dir = "/test".to_string();

    app.input_buffer = "~/images".to_string();
    app.input_target = SettingOption::OutputDir;

    let input = app.input_buffer.clone();
    assert_eq!(input, "~/images");

    let final_path = tui_img::resolve_output_directory(&input, Some(HOME), &app.current_dir);

    let expected = format!("{}/images", HOME);
    assert_eq!(final_path, expected);

    app.files[0].settings.output_directory = Some(final_path);
    let displayed = path_to_tilde(app.files[0].settings.output_directory.as_ref().unwrap(), Some(HOME));
    assert_eq!(displayed, "~/images");
}

fn quality_shown_in_model(app: &App) -> bool {
    let format = app.global_output_format;
    let file = app.selected_file();
    match format {
        None | Some(OutputFormat::Jpeg) => true,
        Some(OutputFormat::Webp) => file.map(|f| !f.settings.webp_lossless).unwrap_or(true),
        Some(OutputFormat::Same) => {
            if let Some(f) = file {
                matches!(f.extension().as_deref(), Some("jpg") | Some("jpeg") | Some("webp"))
            } else {
                true
            }
        }
        _ => false,
    }
}

fn simulate_down_nav(app: &mut App) -> Vec<SettingOption> {
    let mut visited = Vec::new();
    let mut seen = HashSet::new();
    let max_iterations = 20;

    while seen.insert(app.setting_option) && visited.len() < max_iterations {
        visited.push(app.setting_option);
        let format = app.global_output_format;
        let from_quality = quality_shown_in_model(app);
        let from_webp = format == Some(OutputFormat::Webp);
        let from_progressive = format == Some(OutputFormat::Png);

        match app.setting_option {
            SettingOption::Format => {
                app.setting_option = if from_webp {
                    SettingOption::WebpLossless
                } else if from_quality {
                    SettingOption::Quality
                } else {
                    SettingOption::Color
                }
            }
            SettingOption::WebpLossless => {
                app.setting_option = if from_quality {
                    SettingOption::Quality
                } else {
                    SettingOption::Color
                }
            }
            SettingOption::Quality => app.setting_option = SettingOption::Color,
            SettingOption::Color => app.setting_option = SettingOption::Exif,
            SettingOption::Exif => {
                app.setting_option = if from_progressive {
                    SettingOption::Progressive
                } else {
                    SettingOption::MaxWidth
                }
            }
            SettingOption::Progressive => app.setting_option = SettingOption::PngCompress,
            SettingOption::PngCompress => app.setting_option = SettingOption::MaxWidth,
            SettingOption::MaxWidth => app.setting_option = SettingOption::MaxHeight,
            SettingOption::MaxHeight => app.setting_option = SettingOption::Overwrite,
            SettingOption::Overwrite => app.setting_option = SettingOption::Backup,
            SettingOption::Backup => app.setting_option = SettingOption::OutputDir,
            SettingOption::OutputDir => app.setting_option = SettingOption::Format,
        }
    }
    visited
}

fn simulate_up_nav(app: &mut App) -> Vec<SettingOption> {
    let mut visited = Vec::new();
    let mut seen = HashSet::new();
    let max_iterations = 20;

    while seen.insert(app.setting_option) && visited.len() < max_iterations {
        visited.push(app.setting_option);
        let format = app.global_output_format;
        let from_quality = quality_shown_in_model(app);
        let from_webp = format == Some(OutputFormat::Webp);
        let from_progressive = format == Some(OutputFormat::Png);

        match app.setting_option {
            SettingOption::Format => {
                app.setting_option = if from_webp {
                    SettingOption::WebpLossless
                } else if from_progressive {
                    SettingOption::Progressive
                } else if from_quality {
                    SettingOption::Quality
                } else {
                    SettingOption::Color
                }
            }
            SettingOption::OutputDir => app.setting_option = SettingOption::Backup,
            SettingOption::Backup => app.setting_option = SettingOption::Overwrite,
            SettingOption::Overwrite => app.setting_option = SettingOption::MaxHeight,
            SettingOption::MaxHeight => app.setting_option = SettingOption::MaxWidth,
            SettingOption::MaxWidth => {
                app.setting_option = if from_progressive {
                    SettingOption::PngCompress
                } else {
                    SettingOption::Exif
                }
            }
            SettingOption::Exif => app.setting_option = SettingOption::Color,
            SettingOption::Color => {
                app.setting_option = if from_quality {
                    SettingOption::Quality
                } else if from_webp {
                    SettingOption::WebpLossless
                } else {
                    SettingOption::Format
                }
            }
            SettingOption::Quality => {
                app.setting_option = if from_webp {
                    SettingOption::WebpLossless
                } else {
                    SettingOption::Format
                }
            }
            SettingOption::WebpLossless => app.setting_option = SettingOption::Format,
            SettingOption::Progressive => app.setting_option = SettingOption::Exif,
            SettingOption::PngCompress => app.setting_option = SettingOption::Progressive,
        }
    }
    visited
}

fn settings_app(path: &str, format: Option<OutputFormat>) -> App {
    let mut app = App::new(".".to_string());
    app.files.push(image_entry(path));
    app.focused_column = FocusedColumn::ImageSettings;
    app.setting_option = SettingOption::Format;
    app.global_output_format = format;
    app
}

#[test]
fn test_settings_navigation_down_same_no_file() {
    let mut app = settings_app("/test/image.jpg", None);
    let visited = simulate_down_nav(&mut app);
    assert!(visited.len() < 20, "Navigation loop detected! Visited: {:?}", visited);
    assert!(visited.contains(&SettingOption::Format));
}

#[test]
fn test_settings_navigation_down_jpeg_no_file() {
    let mut app = settings_app("/test/image.jpg", Some(OutputFormat::Jpeg));
    let visited = simulate_down_nav(&mut app);
    assert!(visited.len() < 20, "Navigation loop detected! Visited: {:?}", visited);
    assert!(visited.contains(&SettingOption::Format));
    assert!(visited.contains(&SettingOption::Quality));
}

#[test]
fn test_settings_navigation_down_png_no_file() {
    let mut app = settings_app("/test/image.png", Some(OutputFormat::Png));
    let visited = simulate_down_nav(&mut app);
    assert!(visited.len() < 20, "Navigation loop detected! Visited: {:?}", visited);
    assert!(visited.contains(&SettingOption::Format));
    assert!(visited.contains(&SettingOption::Progressive));
    assert!(visited.contains(&SettingOption::PngCompress));
}

#[test]
fn test_settings_navigation_down_webp_no_file() {
    let mut app = settings_app("/test/image.webp", Some(OutputFormat::Webp));
    let visited = simulate_down_nav(&mut app);
    assert!(visited.len() < 20, "Navigation loop detected! Visited: {:?}", visited);
}

#[test]
fn test_settings_navigation_down_gif_no_file() {
    let mut app = settings_app("/test/image.gif", Some(OutputFormat::Gif));
    let visited = simulate_down_nav(&mut app);
    assert!(visited.len() < 20, "Navigation loop detected! Visited: {:?}", visited);
}

#[test]
fn test_settings_navigation_down_tiff_no_file() {
    let mut app = settings_app("/test/image.tiff", Some(OutputFormat::Tiff));
    let visited = simulate_down_nav(&mut app);
    assert!(visited.len() < 20, "Navigation loop detected! Visited: {:?}", visited);
}

#[test]
fn test_settings_navigation_down_bmp_no_file() {
    let mut app = settings_app("/test/image.bmp", Some(OutputFormat::Bmp));
    let visited = simulate_down_nav(&mut app);
    assert!(visited.len() < 20, "Navigation loop detected! Visited: {:?}", visited);
}

#[test]
fn test_settings_navigation_down_tga_no_file() {
    let mut app = settings_app("/test/image.tga", Some(OutputFormat::Tga));
    let visited = simulate_down_nav(&mut app);
    assert!(visited.len() < 20, "Navigation loop detected! Visited: {:?}", visited);
}

#[test]
fn test_settings_navigation_up_webp_no_file() {
    let mut app = settings_app("/test/image.jpg", Some(OutputFormat::Webp));
    let visited = simulate_up_nav(&mut app);
    assert!(visited.len() < 20, "Navigation loop detected! Visited: {:?}", visited);
    assert!(
        !visited.contains(&SettingOption::Quality),
        "Quality should be skipped when no file selected"
    );
}

#[test]
fn test_settings_navigation_up_png_no_file() {
    let mut app = settings_app("/test/image.png", Some(OutputFormat::Png));
    let visited = simulate_up_nav(&mut app);
    assert!(visited.len() < 20, "Navigation loop detected! Visited: {:?}", visited);
}

#[test]
fn test_format_cycling_right_arrow() {
    let mut app = settings_app("/test/image.jpg", None);

    app.global_output_format = Some(OutputFormat::Jpeg);
    assert_eq!(app.global_output_format, Some(OutputFormat::Jpeg));
    app.global_output_format = Some(OutputFormat::Png);
    assert_eq!(app.global_output_format, Some(OutputFormat::Png));
    app.global_output_format = Some(OutputFormat::Webp);
    assert_eq!(app.global_output_format, Some(OutputFormat::Webp));
    app.global_output_format = Some(OutputFormat::Gif);
    assert_eq!(app.global_output_format, Some(OutputFormat::Gif));
    app.global_output_format = Some(OutputFormat::Tiff);
    assert_eq!(app.global_output_format, Some(OutputFormat::Tiff));
    app.global_output_format = Some(OutputFormat::Bmp);
    assert_eq!(app.global_output_format, Some(OutputFormat::Bmp));
    app.global_output_format = Some(OutputFormat::Tga);
    assert_eq!(app.global_output_format, Some(OutputFormat::Tga));
    app.global_output_format = None;
    assert_eq!(app.global_output_format, None);
}

#[test]
fn test_format_cycling_left_arrow() {
    let mut app = settings_app("/test/image.jpg", None);

    app.global_output_format = Some(OutputFormat::Tga);
    assert_eq!(app.global_output_format, Some(OutputFormat::Tga));
    app.global_output_format = Some(OutputFormat::Bmp);
    assert_eq!(app.global_output_format, Some(OutputFormat::Bmp));
    app.global_output_format = Some(OutputFormat::Tiff);
    assert_eq!(app.global_output_format, Some(OutputFormat::Tiff));
    app.global_output_format = Some(OutputFormat::Gif);
    assert_eq!(app.global_output_format, Some(OutputFormat::Gif));
    app.global_output_format = Some(OutputFormat::Webp);
    assert_eq!(app.global_output_format, Some(OutputFormat::Webp));
    app.global_output_format = Some(OutputFormat::Png);
    assert_eq!(app.global_output_format, Some(OutputFormat::Png));
    app.global_output_format = Some(OutputFormat::Jpeg);
    assert_eq!(app.global_output_format, Some(OutputFormat::Jpeg));
    app.global_output_format = None;
    assert_eq!(app.global_output_format, None);
}

// A file that cannot be opened gives the header reader no bytes.
#[test]
fn test_fast_color_type_nonexistent() {
    let result = tui_img::fast_color_type(&[], "jpg");
    assert!(result.is_none());
}

#[test]
fn test_fast_color_type_nonexistent_mmap() {
    let result = tui_img::fast_color_type(&[], "jpg");
    assert!(result.is_none());
}
