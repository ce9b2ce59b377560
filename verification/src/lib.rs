//! Batch image compression and conversion: the settings model, file list,
//! metadata cache, output path planning and the key-driven state machine of
//! the terminal front end.

pub mod animation;
pub mod batch;
pub mod cache;
pub mod codecs;
pub mod compression;
pub mod control;
pub mod exif_loading;
pub mod file_list;
pub mod headers;
pub mod human;
pub mod laws;
pub mod layout;
pub mod listing;
pub mod models;
pub mod navigation;
pub mod output_panel;
pub mod picture;
pub mod paths;
pub mod settings_panel;
pub mod state;
pub mod text;

pub use animation::{
    animated_target, animation_frames, animation_output_name, assemble_animation, assemble_frames,
    assembly_target, convert_animation, delays_text, frame_delays, frame_file, frame_file_name,
    frames_dir_name, frames_ext, is_animation_target, keep_frame_file, open_frame, parse_delays,
    prepare_frames, split_frames, AnimError, SourceFrame,
};
pub use batch::{compress_job, open_job_source, run_events, CompressionJob, JobOutcome};
pub use cache::{cache_metadata, get_cached_metadata, get_unique_path, PathMap, UniquePathSearch};
pub use codecs::{PixelLayout, PngInterlace, PngPreset, WriteFormat};
pub use compression::{
    choose_encoder, compress_bmp, compress_gif, compress_jpeg, compress_picture_direct, compress_png,
    compress_tga, compress_tiff, compress_webp_lossless, compressing_message, converting_message,
    direct_encoder, direct_settings, encode_pixels, layout_for, output_base_path, output_filename,
    png_plan, process_picture, resize_plan, resolve_target_format, webp_mode, BatchTally,
    CompressError, CompressionEvent, Encoded, Encoder, FileResult, ResizePlan, WebpMode,
};
pub use control::{parse_u32_str, resolve_output_directory};
pub use file_list::{file_row, list_columns, list_header, pad_left, pad_right, FileRow, RowTone};
pub use human::bytes_to_human;
pub use layout::{main_split, popup_rect, status_hints};
pub use listing::{entry_order, keep_in_listing, EntryOrder, ListingEntry};
pub use models::{
    color_probe_for_extension, color_type_str, copy_opt_string, create_quality_slider,
    fast_color_type, image_dimensions, path_to_tilde, pixel_type_of_name, truncate_str, CachedImageInfo, ColorProbe,
    ColorSpace, ExifData, ImageFile, ImageSettings, OutputFormat, PixelColorType,
};
pub use navigation::{
    next_setting_down, next_setting_up, show_progressive_setting, show_quality_setting,
    show_webp_setting, FocusedColumn, SettingOption,
};
pub use output_panel::OutputLine;
pub use picture::{Picture, Resampling};
pub use paths::{
    file_name, is_absolute, path_extension, path_join, path_key, path_parent, path_stem, path_with_file_name,
};
pub use settings_panel::PanelLine;
pub use state::{App, AppModel, CompressionResult, Effect, Key};
pub use text::{chars_of, str_eq, string_of, u64_to_string};
