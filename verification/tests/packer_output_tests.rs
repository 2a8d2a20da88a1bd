use clymene::cache::{Cache, CacheMetadata, DataOutputMetadata, GenerationMetadata, ImageOutputMetadata, ModTime};
use clymene::common::ConfigStatus;
use clymene::config::{
    AsepriteConfig, CacheConfig, Config, DataConfig, DisplayKind, ImageConfig, OutputConfig, PackerConfig,
    RetryConfig,
};
use clymene::graphics::{Graphic, GraphicSource, Image, PixelBuffer};
use clymene::math::{Rectangle, Size};
use clymene::output::{ConfigProcessor, FileObservation, Output, OutputError, OutputFile, OutputProcessor};
use clymene::packer::{AtlasCheck, AtlasPlan, Packer, PackerError, PackerProcessor, ValidationError};
use clymene::state::{GeneratorModeArgs, GlobalArgs, State};

/// Places sources side by side on the top row; fails when they do not fit.
struct RowPacker;

impl Packer for RowPacker {
    type Usage = u32;

    fn name(&self) -> &str {
        "row"
    }

    // The packer's outcome and placement as a specification states them;
    // running code never asks for them.
    fn spec_outcome(&self, _atlas_min_size: Size, _regions: vstd::seq::Seq<Rectangle>) -> Result<(), PackerError> {
        unreachable!()
    }

    fn spec_placement(&self, _atlas_min_size: Size, _regions: vstd::seq::Seq<Rectangle>) -> vstd::seq::Seq<Option<Rectangle>> {
        unreachable!()
    }

    fn execute(&self, atlas_min_size: Size, graphic_sources: &mut Vec<GraphicSource>) -> Result<u32, PackerError> {
        if atlas_min_size.width == 0 || atlas_min_size.height == 0 {
            return Err(PackerError::EmptyTargetSize);
        }
        let mut x = 0u32;
        for gs in graphic_sources.iter() {
            x += gs.region.width;
            if x > atlas_min_size.width || gs.region.height > atlas_min_size.height {
                return Err(PackerError::OutOfSpace);
            }
        }
        let mut x = 0u32;
        for gs in graphic_sources.iter_mut() {
            gs.atlas_region = Some(Rectangle { x, y: 0, width: gs.region.width, height: gs.region.height });
            x += gs.region.width;
        }
        Ok(x)
    }
}

fn config(atlas_size: u32, optimize: bool, retry: RetryConfig) -> Config {
    Config {
        verbose: false,
        prettify: false,
        cache: CacheConfig { verbose: false, path: "cache".to_string(), identifier: "id".to_string() },
        image: ImageConfig {
            verbose: false,
            input_path: "in".to_string(),
            output_path: "out".to_string(),
            jobs: 0,
            display: DisplayKind::Simple,
            aseprite: AsepriteConfig { bin_path: String::new() },
        },
        packer: PackerConfig { verbose: false, atlas_size, optimize, retry },
        data: DataConfig { verbose: false, prettify: false },
        output: OutputConfig { verbose: false, path: String::new(), name: String::new() },
    }
}

fn no_retry() -> RetryConfig {
    RetryConfig { enable: false, max_retries: 0, until_atlas_size: 0 }
}

fn args() -> GeneratorModeArgs {
    GeneratorModeArgs {
        global: GlobalArgs { verbose: false, debug: false, force: false, config_filepath: String::new() },
    }
}

fn image(width: u32, height: u32, value: u8) -> Graphic {
    Graphic::Image(Image::with_graphic_source(
        GraphicSource {
            buffer: PixelBuffer { width, height, pixels: vec![value; (width * height * 4) as usize] },
            region: Rectangle { x: 0, y: 0, width, height },
            atlas_region: None,
        },
        format!("in/{}.png", value),
    ))
}

fn metadata() -> CacheMetadata {
    CacheMetadata::new(GenerationMetadata {
        image: ImageOutputMetadata { source_directory_modtime: ModTime { secs: 5, nanos: 0 } },
        data: DataOutputMetadata { prettified: false },
    })
}

#[test]
fn atlas_path_is_named_png_in_cache_atlas_directory() {
    let p = PackerProcessor::new(RowPacker);
    assert_eq!(p.output_file_path(&config(64, false, no_retry())), "cache/id/atlas/atlas.png");
    let mut c = config(64, false, no_retry());
    c.output.name = "sheet".to_string();
    assert_eq!(p.output_file_path(&c), "cache/id/atlas/sheet.png");
    assert_eq!(p.packer().name(), "row");
}

#[test]
fn configured_atlas_size_is_used() {
    let p = PackerProcessor::new(RowPacker);
    let mut c = config(100, false, no_retry());
    let mut o: Output<()> = Output::new(8, 8);
    assert_eq!(p.configure_atlas_size(&mut c, &mut o), ConfigStatus::NotModified);
    assert_eq!((o.atlas_width(), o.atlas_height()), (100, 100));
}

#[test]
fn optimized_atlas_size_is_rounded_up_to_power_of_two() {
    let p = PackerProcessor::new(RowPacker);
    let mut c = config(100, true, no_retry());
    let mut o: Output<()> = Output::new(8, 8);
    assert_eq!(p.configure_atlas_size(&mut c, &mut o), ConfigStatus::NotModified);
    assert_eq!((o.atlas_width(), o.atlas_height()), (128, 128));
    assert_eq!(c.packer.atlas_size, 100);
    let mut c = config(64, true, no_retry());
    p.configure_atlas_size(&mut c, &mut o);
    assert_eq!((o.atlas_width(), o.atlas_height()), (64, 64));
}

#[test]
fn missing_atlas_size_is_filled_from_output() {
    let p = PackerProcessor::new(RowPacker);
    let mut c = config(0, false, no_retry());
    let mut o: Output<()> = Output::new(32, 32);
    assert_eq!(p.configure_atlas_size(&mut c, &mut o), ConfigStatus::Modified);
    assert_eq!(c.packer.atlas_size, 32);
}

#[test]
fn atlas_plans() {
    type P = PackerProcessor<RowPacker>;
    assert_eq!(P::plan_atlas(true, &AtlasCheck::Image { width: 4, height: 4 }, 4, 4), AtlasPlan::Request);
    assert_eq!(P::plan_atlas(false, &AtlasCheck::Image { width: 4, height: 4 }, 4, 4), AtlasPlan::Keep);
    assert_eq!(P::plan_atlas(false, &AtlasCheck::Image { width: 4, height: 8 }, 4, 4), AtlasPlan::Request);
    assert_eq!(P::plan_atlas(false, &AtlasCheck::Missing, 4, 4), AtlasPlan::Request);
    assert_eq!(P::plan_atlas(false, &AtlasCheck::NotAFile, 4, 4), AtlasPlan::PathInUse);
    let io = std::io::Error::new(std::io::ErrorKind::Other, "x");
    assert_eq!(P::plan_atlas(false, &AtlasCheck::IoFailed(io), 4, 4), AtlasPlan::Unreadable);
}

#[test]
fn packing_fits_without_retry() {
    let a = args();
    let mut state: State<()> = State::new(config(8, false, no_retry()), &a);
    state.graphic_output.graphics.push(image(2, 2, 1));
    state.graphic_output.graphics.push(image(3, 2, 2));
    let p = PackerProcessor::new(RowPacker);
    let (r, retries) = p.pack(&mut state);
    assert_eq!(r, Ok(5));
    assert_eq!(retries, 0);
    match &state.graphic_output.graphics[1] {
        Graphic::Image(i) => assert_eq!(i.graphic_source.atlas_region, Some(Rectangle { x: 2, y: 0, width: 3, height: 2 })),
        _ => panic!("kind changed"),
    }
}

#[test]
fn packing_retries_on_doubled_atlas() {
    let a = args();
    let retry = RetryConfig { enable: true, max_retries: 0, until_atlas_size: 0 };
    let mut state: State<()> = State::new(config(2, false, retry), &a);
    state.graphic_output.graphics.push(image(2, 2, 1));
    state.graphic_output.graphics.push(image(3, 2, 2));
    let p = PackerProcessor::new(RowPacker);
    let (r, retries) = p.pack(&mut state);
    assert_eq!(r, Ok(5));
    assert_eq!(retries, 2);
    assert_eq!((state.output.atlas_width(), state.output.atlas_height()), (8, 8));
}

#[test]
fn packing_stops_at_retry_limit() {
    let a = args();
    let retry = RetryConfig { enable: true, max_retries: 1, until_atlas_size: 0 };
    let mut state: State<()> = State::new(config(2, false, retry), &a);
    state.graphic_output.graphics.push(image(2, 2, 1));
    state.graphic_output.graphics.push(image(3, 2, 2));
    let (r, retries) = PackerProcessor::new(RowPacker).pack(&mut state);
    assert_eq!(r, Err(PackerError::OutOfSpace));
    assert_eq!(retries, 1);
    assert_eq!(state.output.atlas_width(), 4);
}

#[test]
fn packing_stops_at_largest_atlas() {
    let a = args();
    let retry = RetryConfig { enable: true, max_retries: 0, until_atlas_size: 3 };
    let mut state: State<()> = State::new(config(2, false, retry), &a);
    state.graphic_output.graphics.push(image(2, 2, 1));
    state.graphic_output.graphics.push(image(3, 2, 2));
    let (r, retries) = PackerProcessor::new(RowPacker).pack(&mut state);
    assert_eq!(r, Err(PackerError::OutOfSpace));
    assert_eq!(retries, 1);
    assert_eq!((state.output.atlas_width(), state.output.atlas_height()), (3, 3));
}

#[test]
fn packing_without_retries_fails_once() {
    let a = args();
    let mut state: State<()> = State::new(config(2, false, no_retry()), &a);
    state.graphic_output.graphics.push(image(3, 2, 2));
    let (r, retries) = PackerProcessor::new(RowPacker).pack(&mut state);
    assert_eq!(r, Err(PackerError::OutOfSpace));
    assert_eq!(retries, 0);
    let mut state: State<()> = State::new(config(0, false, no_retry()), &a);
    let (r, _) = PackerProcessor::new(RowPacker).pack(&mut state);
    assert_eq!(r, Err(PackerError::EmptyTargetSize));
}

#[test]
fn generated_atlas_holds_packed_pixels() {
    let a = args();
    let mut state: State<()> = State::new(config(4, false, no_retry()), &a);
    state.graphic_output.graphics.push(image(1, 1, 7));
    state.graphic_output.graphics.push(image(2, 1, 9));
    let p = PackerProcessor::new(RowPacker);
    let (r, _) = p.pack(&mut state);
    assert!(r.is_ok());
    let atlas = p.generate_image(&mut state).ok().unwrap();
    assert_eq!((atlas.width, atlas.height), (4, 4));
    assert_eq!(&atlas.pixels[0..4], &[7, 7, 7, 7]);
    assert_eq!(&atlas.pixels[4..12], &[9; 8]);
    assert_eq!(&atlas.pixels[12..16], &[0; 4]);
    assert!(atlas.pixels[16..].iter().all(|b| *b == 0));
}

#[test]
fn generating_fails_when_a_source_does_not_fit() {
    let a = args();
    let mut state: State<()> = State::new(config(2, false, no_retry()), &a);
    let mut g = image(2, 2, 1);
    if let Graphic::Image(i) = &mut g {
        i.graphic_source.atlas_region = Some(Rectangle { x: 1, y: 0, width: 2, height: 2 });
    }
    state.graphic_output.graphics.push(g);
    assert!(PackerProcessor::new(RowPacker).generate_image(&mut state).is_err());
}

#[test]
fn output_is_validated_against_cache_and_atlas() {
    let a = args();
    let p = PackerProcessor::new(RowPacker);
    let mut state: State<u8> = State::new(config(4, false, no_retry()), &a);
    state.refresh_cache_metadata(metadata());
    let e = p.validate_output(&mut state, AtlasCheck::Missing, 1).err().unwrap();
    assert!(matches!(e, ValidationError::AtlasImageNotFound));
    assert!(e.calls_for_regeneration());
    let e = p.validate_output(&mut state, AtlasCheck::Image { width: 8, height: 8 }, 1).err().unwrap();
    assert!(matches!(e, ValidationError::PreviousFileImageSizeMismatch));
    let io = std::io::Error::new(std::io::ErrorKind::Other, "x");
    let e = p.validate_output(&mut state, AtlasCheck::IoFailed(io), 1).err().unwrap();
    assert!(!e.calls_for_regeneration());
    assert!(p.validate_output(&mut state, AtlasCheck::Image { width: 4, height: 4 }, 3).is_ok());
    assert_eq!(state.output.files().len(), 1);
    assert_eq!(state.output.files()[0].path(), "cache/id/atlas/atlas.png");
    assert_eq!(state.output.files()[0].stats(), Some(&3));
    state.cache.as_mut().unwrap().mark_as_outdated();
    assert!(matches!(
        p.validate_output(&mut state, AtlasCheck::Image { width: 4, height: 4 }, 3),
        Err(ValidationError::CacheNotUpdated)
    ));
}

#[test]
fn state_starts_with_configured_atlas() {
    let a = args();
    let state: State<()> = State::new(config(16, false, no_retry()), &a);
    assert_eq!((state.output.atlas_width(), state.output.atlas_height()), (16, 16));
    assert!(state.cache.is_none());
    assert!(!state.args().global.force);
    let m = state.create_cache_metadata(ModTime { secs: 9, nanos: 1 });
    assert_eq!(m.version(), "0.1.0");
    assert_eq!(m.generation_metadata().image.source_directory_modtime, ModTime { secs: 9, nanos: 1 });
}

#[test]
fn refreshed_metadata_creates_cache_at_configured_paths() {
    let a = args();
    let mut state: State<()> = State::new(config(16, false, no_retry()), &a);
    state.refresh_cache_metadata(metadata());
    let c: &Cache = state.cache.as_ref().unwrap();
    assert_eq!(c.images_path(), "cache/id/images");
    assert_eq!(c.atlas_output_path(), "cache/id/atlas");
    assert!(c.entries().is_empty());
    assert!(c.is_updated());
}

#[test]
fn registering_output_files() {
    let mut o: Output<u8> = Output::new(4, 4);
    assert!(o.register_file(OutputFile::new("a".to_string()), FileObservation::Found { is_file: true }).is_ok());
    assert!(matches!(
        o.register_file(OutputFile::new("b".to_string()), FileObservation::Found { is_file: false }),
        Err(OutputError::FileExpected)
    ));
    assert!(matches!(
        o.register_file(OutputFile::new("c".to_string()), FileObservation::NotFound),
        Err(OutputError::FileExpected)
    ));
    let io = std::io::Error::new(std::io::ErrorKind::Other, "x");
    assert!(matches!(
        o.register_file(OutputFile::with_stats("d".to_string(), 2), FileObservation::Failed(io)),
        Err(OutputError::Io(_))
    ));
    assert_eq!(o.files().len(), 1);
    assert_eq!(o.files()[0].path(), "a");
    assert_eq!(o.files()[0].stats(), None);
    o.set_atlas_dimensions(3, 5);
    assert_eq!((o.atlas_width(), o.atlas_height()), (3, 5));
    o.set_atlas_size(7);
    assert_eq!((o.atlas_width(), o.atlas_height()), (7, 7));
}

#[test]
fn output_defaults() {
    let mut c = config(4, false, no_retry());
    assert_eq!(OutputProcessor::apply_output_path_default(&mut c), ConfigStatus::Modified);
    assert_eq!(c.output.path, "output");
    assert_eq!(OutputProcessor::apply_output_path_default(&mut c), ConfigStatus::NotModified);
    let mut c = config(4, false, no_retry());
    c.output.path = "dist".to_string();
    ConfigProcessor::apply_output_defaults(&mut c);
    assert_eq!(c.output.path, "dist");
    assert_eq!(c.output.name, "atlas");
    assert_eq!(ConfigProcessor::apply_output_defaults(&mut c), ConfigStatus::NotModified);
    assert_eq!(Config::default_output_name(), "atlas");
    assert!(OutputProcessor::is_unchanged(ModTime { secs: 1, nanos: 0 }, Some(ModTime { secs: 2, nanos: 0 })));
    assert!(!OutputProcessor::is_unchanged(ModTime { secs: 2, nanos: 0 }, Some(ModTime { secs: 1, nanos: 0 })));
    assert!(!OutputProcessor::is_unchanged(ModTime { secs: 2, nanos: 0 }, None));
}

#[test]
fn kept_atlas_is_registered_after_earlier_files() {
    let a = args();
    let p = PackerProcessor::new(RowPacker);
    let mut state: State<u8> = State::new(config(4, false, no_retry()), &a);
    state.refresh_cache_metadata(metadata());
    assert!(state
        .output
        .register_file(OutputFile::with_stats("earlier".to_string(), 9), FileObservation::Found { is_file: true })
        .is_ok());
    assert!(p.validate_output(&mut state, AtlasCheck::Image { width: 4, height: 4 }, 3).is_ok());
    assert_eq!(state.output.files().len(), 2);
    assert_eq!(state.output.files()[0].path(), "earlier");
    assert_eq!(state.output.files()[0].stats(), Some(&9));
    assert_eq!(state.output.files()[1].path(), "cache/id/atlas/atlas.png");
}

#[test]
fn output_files_are_the_registered_ones_in_order() {
    let mut o: Output<u8> = Output::new(2, 2);
    o.register_file(OutputFile::new("a".to_string()), FileObservation::Found { is_file: true }).ok();
    o.register_file(OutputFile::new("b".to_string()), FileObservation::NotFound).ok();
    o.set_atlas_size(8);
    o.register_file(OutputFile::new("c".to_string()), FileObservation::Found { is_file: true }).ok();
    let paths: Vec<&str> = o.files().iter().map(|f| f.path()).collect();
    assert_eq!(paths, vec!["a", "c"]);
}

#[test]
fn sources_ready_for_composing() {
    let graphics = vec![image(2, 2, 1), Graphic::Empty];
    assert!(clymene::atlas_image::sources_ready(&graphics));
    let mut broken = image(2, 2, 1);
    if let Graphic::Image(i) = &mut broken {
        i.graphic_source.region = Rectangle { x: 1, y: 0, width: 2, height: 2 };
    }
    assert!(!clymene::atlas_image::sources_ready(&vec![image(1, 1, 3), broken]));
    let mut short = image(2, 2, 1);
    if let Graphic::Image(i) = &mut short {
        i.graphic_source.buffer.pixels.pop();
    }
    assert!(!clymene::atlas_image::sources_ready(&vec![short]));
    let mut far = image(2, 2, 1);
    if let Graphic::Image(i) = &mut far {
        i.graphic_source.atlas_region = Some(Rectangle { x: u32::MAX - 1, y: 0, width: 2, height: 2 });
    }
    assert!(!clymene::atlas_image::sources_ready(&vec![far]));
}
