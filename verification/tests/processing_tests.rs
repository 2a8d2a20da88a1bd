use clymene::aseprite::{AsepriteFormatHandler, AsepriteProcessor, BinResolution, CommandProcessor};
use clymene::aseprite_data::{
    Data, FrameData as AsepriteFrameData, FrameTagData, MetaData, RectData, SizeData, SliceData,
};
use clymene::cache::{Cache, CacheMetadata, DataOutputMetadata, GenerationMetadata, ImageOutputMetadata, ModTime};
use clymene::common::{ConfigStatus, Verbosity};
use clymene::config::{
    AsepriteConfig, CacheConfig, Config, DataConfig, DisplayKind, ImageConfig, OutputConfig, PackerConfig,
    RetryConfig,
};
use clymene::data::{FrameData, GraphicData};
use clymene::data_processor::{AtlasData, DataProcessor, GatherError};
use clymene::graphics::{Frame, Graphic, GraphicSource, PixelBuffer, Track};
use clymene::image::{GraphicOutput, GraphicSourceData};
use clymene::math::{Rectangle, Size};
use clymene::state::{GeneratorModeArgs, GlobalArgs, State};
use clymene::processing::{
    processing_needed, processing_thread_count, source_output_dir, ProcessedData, ProcessedInfo, ProcessingStats,
};

fn metadata(secs: u64, prettified: bool) -> CacheMetadata {
    CacheMetadata::new(GenerationMetadata {
        image: ImageOutputMetadata { source_directory_modtime: ModTime { secs, nanos: 0 } },
        data: DataOutputMetadata { prettified },
    })
}

fn config() -> Config {
    Config {
        verbose: false,
        prettify: false,
        cache: CacheConfig { verbose: false, path: "cache".to_string(), identifier: "id".to_string() },
        image: ImageConfig {
            verbose: false,
            input_path: "in".to_string(),
            output_path: "out".to_string(),
            jobs: 0,
            display: DisplayKind::List,
            aseprite: AsepriteConfig { bin_path: String::new() },
        },
        packer: PackerConfig {
            verbose: false,
            atlas_size: 32,
            optimize: false,
            retry: RetryConfig { enable: false, max_retries: 0, until_atlas_size: 0 },
        },
        data: DataConfig { verbose: false, prettify: false },
        output: OutputConfig { verbose: false, path: String::new(), name: String::new() },
    }
}

fn data_with_frames(n: u32) -> GraphicData {
    let mut d = GraphicData::new();
    for _ in 0..n {
        d.frames.push(FrameData::Empty);
    }
    d
}

fn source(value: u8) -> GraphicSource {
    GraphicSource {
        buffer: PixelBuffer { width: 1, height: 1, pixels: vec![value; 4] },
        region: Rectangle { x: 0, y: 0, width: 1, height: 1 },
        atlas_region: None,
    }
}

fn aseprite_frame(w: u32, h: u32, duration: i32) -> AsepriteFrameData {
    AsepriteFrameData {
        sprite_source_size: RectData { x: 1, y: 2, w, h },
        source_size: SizeData { w: 16, h: 8 },
        duration,
    }
}

#[test]
fn data_is_prettified_by_either_setting() {
    let mut c = config();
    assert_eq!(DataProcessor::setup(&mut c), ConfigStatus::NotModified);
    assert!(!c.data.prettify);
    c.prettify = true;
    DataProcessor::setup(&mut c);
    assert!(c.data.prettify);
}

#[test]
fn data_path_is_in_cache_atlas_directory() {
    let mut c = config();
    assert_eq!(DataProcessor::atlas_data_path(&c), "cache/id/atlas/atlas.data.json");
    c.output.name = "sheet".to_string();
    assert_eq!(DataProcessor::atlas_data_path(&c), "cache/id/atlas/sheet.data.json");
}

#[test]
fn data_up_to_date_needs_same_prettify_and_updated_cache() {
    let mut cache = Cache::new(metadata(1, true), "img".to_string(), "atlas".to_string());
    assert!(DataProcessor::is_up_to_date(&cache, true));
    assert!(!DataProcessor::is_up_to_date(&cache, false));
    cache.mark_as_outdated();
    assert!(!DataProcessor::is_up_to_date(&cache, true));
}

#[test]
fn gathering_names_entries_by_file_stem() {
    let mut cache = Cache::new(metadata(1, false), "img".to_string(), "atlas".to_string());
    cache.register("chars/hero".to_string(), "ase".to_string(), ModTime { secs: 1, nanos: 0 }, data_with_frames(2));
    cache.register("tiles/grass".to_string(), "png".to_string(), ModTime { secs: 1, nanos: 0 }, data_with_frames(1));
    cache.register("other/hero".to_string(), "png".to_string(), ModTime { secs: 1, nanos: 0 }, data_with_frames(3));
    let gathered = DataProcessor::gather(&cache).ok().unwrap();
    let entries = gathered.entries();
    assert_eq!(entries.len(), 2);
    let hero = entries.iter().find(|e| e.name == "hero").unwrap();
    assert_eq!(hero.data.frames.len(), 3);
    let grass = entries.iter().find(|e| e.name == "grass").unwrap();
    assert_eq!(grass.data.frames.len(), 1);
}

#[test]
fn gathering_fails_without_file_stem() {
    let mut cache = Cache::new(metadata(1, false), "img".to_string(), "atlas".to_string());
    cache.register("".to_string(), "png".to_string(), ModTime { secs: 1, nanos: 0 }, data_with_frames(1));
    match DataProcessor::gather(&cache) {
        Err(GatherError::FileStemNotFound(l)) => assert_eq!(l, ""),
        _ => panic!("expected a missing file stem"),
    }
}

#[test]
fn atlas_data_insert_replaces_by_name() {
    let mut d = AtlasData::new();
    assert!(d.entries().is_empty());
    d.insert("a".to_string(), data_with_frames(1));
    d.insert("b".to_string(), data_with_frames(2));
    d.insert("a".to_string(), data_with_frames(4));
    assert_eq!(d.entries().len(), 2);
    assert_eq!(d.entries()[0].name, "a");
    assert_eq!(d.entries()[0].data.frames.len(), 4);
}

#[test]
fn thread_count_follows_jobs_or_cpus() {
    assert_eq!(processing_thread_count(3), 3);
    assert!(processing_thread_count(0) >= 1);
}

#[test]
fn processing_needed_cases() {
    let t = ModTime { secs: 7, nanos: 0 };
    assert!(processing_needed(false, &None, false, t));
    let cache = Some(Cache::new(metadata(7, false), "img".to_string(), "atlas".to_string()));
    assert!(!processing_needed(false, &cache, false, t));
    assert!(processing_needed(true, &cache, false, t));
    assert!(processing_needed(false, &cache, true, t));
    assert!(processing_needed(false, &cache, false, ModTime { secs: 8, nanos: 0 }));
    let mut c = cache.unwrap();
    c.mark_as_outdated();
    assert!(processing_needed(false, &Some(c), false, t));
}

#[test]
fn source_output_directories() {
    assert_eq!(source_output_dir("in/chars/hero.ase", "in", "cache/id/images"), Some("cache/id/images/chars/hero".to_string()));
    assert_eq!(source_output_dir("elsewhere/hero.ase", "in", "cache/id/images"), None);
}

#[test]
fn outcomes_are_classified() {
    let info: ProcessedInfo<u8> = ProcessedInfo::from_outcome("a".to_string(), 2, Ok(Graphic::Empty));
    assert!(matches!(info.data, ProcessedData::Succeeded));
    assert_eq!(info.thread_index, 2);
    assert_eq!(info.location, "a");
    let info: ProcessedInfo<u8> = ProcessedInfo::from_outcome("b".to_string(), 0, Err(5));
    assert!(matches!(info.data, ProcessedData::Failed(5)));
    let g = Graphic::Image(clymene::graphics::Image::with_graphic_source(source(1), "x.png".to_string()));
    let info: ProcessedInfo<u8> = ProcessedInfo::from_outcome("c".to_string(), 1, Ok(g));
    assert!(matches!(info.data, ProcessedData::New(Graphic::Image(_))));
}

#[test]
fn stats_tally_processed_sources() {
    let mut stats = ProcessingStats::new();
    let mut output = GraphicOutput::new();
    assert!(!stats.cache_outdated());
    stats.record_cache_hit();
    stats.record_outside_input();
    assert_eq!((stats.succeeded_files, stats.failed_files, stats.total_processed_files), (1, 1, 2));
    let free = stats.handle_processed(ProcessedInfo::<u8>::from_outcome("a".to_string(), 3, Ok(Graphic::Empty)), &mut output);
    assert_eq!(free, 3);
    let g = Graphic::Image(clymene::graphics::Image::with_graphic_source(source(1), "x.png".to_string()));
    stats.handle_processed(ProcessedInfo::<u8>::from_outcome("b".to_string(), 1, Ok(g)), &mut output);
    stats.handle_processed(ProcessedInfo::<u8>::from_outcome("c".to_string(), 0, Err(9)), &mut output);
    assert_eq!(output.graphics.len(), 1);
    assert_eq!((stats.succeeded_files, stats.new_files(), stats.failed_files), (3, 1, 2));
    assert_eq!(stats.total_processed_files, 5);
    assert!(stats.cache_outdated());
    let mut other = ProcessingStats::new();
    other.record_cache_miss();
    assert_eq!(other.failed_cache_retrieve(), 1);
    assert!(other.cache_outdated());
}

#[test]
fn aseprite_magic_number() {
    assert!(AsepriteFormatHandler::has_magic_number([0xE0, 0xA5]));
    assert!(!AsepriteFormatHandler::has_magic_number([0xA5, 0xE0]));
    let mut h = AsepriteFormatHandler::new(AsepriteProcessor::Command);
    assert_eq!(h.processor(), AsepriteProcessor::Command);
    assert!(!h.is_verbose());
    h.verbose(true);
    assert!(h.is_verbose());
}

#[test]
fn aseprite_bin_resolution() {
    let configured = "/usr/bin/aseprite".to_string();
    assert!(matches!(CommandProcessor::resolve_bin_path(&String::new(), Some("x".to_string())), BinResolution::Locate));
    assert!(matches!(CommandProcessor::resolve_bin_path(&configured, None), BinResolution::Locate));
    let kept = CommandProcessor::resolve_bin_path(&configured, Some(configured.clone()));
    assert!(matches!(kept, BinResolution::Keep));
    assert_eq!(CommandProcessor::resolution_status(&kept), ConfigStatus::NotModified);
    let used = CommandProcessor::resolve_bin_path(&configured, Some("/opt/aseprite".to_string()));
    match &used {
        BinResolution::Use(p) => assert_eq!(p, "/opt/aseprite"),
        _ => panic!("expected the found path"),
    }
    assert_eq!(CommandProcessor::resolution_status(&used), ConfigStatus::Modified);
}

#[test]
fn aseprite_dimensions_from_first_sized_frame() {
    let mut frames = vec![AsepriteFrameData {
        sprite_source_size: RectData { x: 0, y: 0, w: 0, h: 0 },
        source_size: SizeData { w: 0, h: 4 },
        duration: 10,
    }];
    assert_eq!(CommandProcessor::find_dimensions(&frames), None);
    frames.push(aseprite_frame(2, 2, 10));
    assert_eq!(CommandProcessor::find_dimensions(&frames), Some(Size { width: 16, height: 8 }));
}

#[test]
fn aseprite_frame_data() {
    let frames = vec![aseprite_frame(0, 3, 10), aseprite_frame(2, 3, 100), aseprite_frame(2, 3, -5)];
    let data = CommandProcessor::to_frame_data(&frames);
    assert_eq!(data[0], FrameData::Empty);
    assert_eq!(
        data[1],
        FrameData::Contents {
            atlas_region: Rectangle { x: 0, y: 0, width: 0, height: 0 },
            duration: Some(100),
            source_region: Rectangle { x: 1, y: 2, width: 2, height: 3 },
        }
    );
    assert!(matches!(data[2], FrameData::Contents { duration: None, .. }));
}

#[test]
fn aseprite_tracks() {
    let t: Track = CommandProcessor::build_track(&FrameTagData { name: "walk".to_string(), from: 1, to: 3 });
    assert_eq!(t.label, Some("walk".to_string()));
    assert_eq!(t.frame_indices, vec![1, 2, 3]);
    let t = CommandProcessor::build_track(&FrameTagData { name: String::new(), from: -2, to: 1 });
    assert_eq!(t.label, None);
    assert_eq!(t.frame_indices, vec![0, 1]);
    let t = CommandProcessor::build_track(&FrameTagData { name: "x".to_string(), from: 4, to: 2 });
    assert!(t.frame_indices.is_empty());
}

fn export(tags: Vec<FrameTagData>, slices: usize, durations: &[i32]) -> Data {
    Data {
        frames: durations.iter().map(|d| aseprite_frame(1, 1, *d)).collect(),
        meta: MetaData {
            frame_tags: tags,
            slices: (0..slices).map(|i| SliceData { name: format!("s{}", i) }).collect(),
        },
    }
}

#[test]
fn aseprite_export_to_graphic() {
    let data = export(vec![], 0, &[10]);
    assert!(matches!(CommandProcessor::graphic_from_export(vec![], &data, "a.ase".to_string()), Graphic::Empty));
    let single = vec![GraphicSourceData { source: source(3), frame_index: 0 }];
    match CommandProcessor::graphic_from_export(single, &data, "a.ase".to_string()) {
        Graphic::Image(i) => {
            assert_eq!(i.source_path, "a.ase");
            assert_eq!(i.graphic_source.buffer.pixels, vec![3; 4]);
        },
        _ => panic!("expected an image"),
    }
    let data = export(vec![FrameTagData { name: "idle".to_string(), from: 0, to: 1 }], 0, &[10, -1]);
    let two = vec![
        GraphicSourceData { source: source(1), frame_index: 0 },
        GraphicSourceData { source: source(2), frame_index: 1 },
    ];
    match CommandProcessor::graphic_from_export(two, &data, "b.ase".to_string()) {
        Graphic::Animation(a) => {
            assert_eq!(a.source_path, "b.ase");
            assert_eq!(a.frames.len(), 2);
            assert!(matches!(&a.frames[0], Frame::Contents { duration: 10, .. }));
            assert!(matches!(&a.frames[1], Frame::Contents { duration: 0, .. }));
            assert_eq!(a.tracks.entries().len(), 1);
            assert_eq!(a.tracks.entries()[0].frame_indices, vec![0, 1]);
        },
        _ => panic!("expected an animation"),
    }
    let data = export(vec![], 1, &[10]);
    let single = vec![GraphicSourceData { source: source(3), frame_index: 0 }];
    assert!(matches!(
        CommandProcessor::graphic_from_export(single, &data, "c.ase".to_string()),
        Graphic::Animation(_)
    ));
}

#[test]
fn rerun_with_unchanged_sources_processes_nothing() {
    let args = GeneratorModeArgs {
        global: GlobalArgs { verbose: false, debug: false, force: false, config_filepath: String::new() },
    };
    let mut state: State<()> = State::new(config(), &args);
    let t = ModTime { secs: 42, nanos: 7 };
    let m = state.create_cache_metadata(t);
    state.refresh_cache_metadata(m);
    assert!(!processing_needed(false, &state.cache, state.graphic_output.is_requested(), t));
    assert!(processing_needed(false, &state.cache, false, ModTime { secs: 42, nanos: 8 }));
}

#[test]
fn aseprite_handler_name_and_extensions() {
    let h = AsepriteFormatHandler::new(AsepriteProcessor::RawFile);
    assert_eq!(h.name(), "Aseprite");
    assert_eq!(h.extensions(), ["ase", "aseprite"]);
    assert_eq!(h.processor(), AsepriteProcessor::RawFile);
}

#[test]
fn aseprite_single_image_needs_no_frame_data() {
    let data = export(vec![], 0, &[]);
    let single = vec![GraphicSourceData { source: source(5), frame_index: 0 }];
    match CommandProcessor::graphic_from_export(single, &data, "d.ase".to_string()) {
        Graphic::Image(i) => assert_eq!(i.source_path, "d.ase"),
        _ => panic!("expected an image"),
    }
}

#[test]
fn sources_are_taken_in_before_processing() {
    let mut stats = ProcessingStats::new();
    let mut output = GraphicOutput::new();
    assert!(!stats.on_source(true, false, None, &mut output));
    assert_eq!((stats.failed_files, stats.total_processed_files), (1, 1));
    assert!(stats.on_source(false, true, None, &mut output));
    assert_eq!(stats.total_processed_files, 1);
    let g = Graphic::Image(clymene::graphics::Image::with_graphic_source(source(2), "y.png".to_string()));
    assert!(!stats.on_source(false, false, Some(g), &mut output));
    assert_eq!((stats.succeeded_files, stats.total_processed_files), (1, 2));
    assert_eq!(output.graphics.len(), 1);
    assert!(stats.on_source(false, false, None, &mut output));
    assert_eq!(stats.failed_cache_retrieve(), 1);
    assert!(stats.cache_outdated());
}

#[test]
fn exported_frame_images_fit_the_data() {
    let data = export(vec![], 0, &[]);
    assert!(CommandProcessor::export_fits(1, &data));
    assert!(!CommandProcessor::export_fits(2, &data));
    let tagged = export(vec![FrameTagData { name: "t".to_string(), from: 0, to: 0 }], 0, &[10]);
    assert!(CommandProcessor::export_fits(1, &tagged));
    assert!(!CommandProcessor::export_fits(2, &tagged));
    let sliced = export(vec![], 1, &[]);
    assert!(!CommandProcessor::export_fits(1, &sliced));
}
