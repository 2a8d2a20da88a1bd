use clymene::cache::{Cache, CacheEntry, CacheMetadata, CacheStatus, DataOutputMetadata, GenerationMetadata, ImageOutputMetadata, ModTime};
use clymene::cache_exporter::{CacheExporterProcessor, GraphicRecord, RecordError};
use clymene::cache_importer::{CacheImporterProcessor, IdentifierSearch, ImportAction, LoadOutcome, SearchStep};
use clymene::common::{ConfigStatus, PathState, Verbosity};
use clymene::data::{FrameData, GraphicData};
use clymene::image::GraphicSourceData;
use clymene::graphics::{Animation, Frame, Graphic, GraphicSource, Image, PixelBuffer, Track};
use clymene::math::Rectangle;

fn generation() -> GenerationMetadata {
    GenerationMetadata {
        image: ImageOutputMetadata { source_directory_modtime: ModTime { secs: 1, nanos: 2 } },
        data: DataOutputMetadata { prettified: true },
    }
}

fn gs(atlas_region: Option<Rectangle>) -> GraphicSource {
    GraphicSource {
        buffer: PixelBuffer { width: 2, height: 2, pixels: vec![0; 16] },
        region: Rectangle { x: 0, y: 0, width: 2, height: 2 },
        atlas_region,
    }
}

#[test]
fn cache_kept_only_at_same_version() {
    let p = CacheImporterProcessor::new();
    let current = CacheMetadata::new(generation());
    let same = CacheMetadata::with_version("0.1.0".to_string(), generation());
    let older = CacheMetadata::with_version("0.0.9".to_string(), generation());
    assert!(p.should_keep_cache(&same, &current));
    assert!(!p.should_keep_cache(&older, &current));
    assert!(p.should_keep_cache(&CacheMetadata::new(generation()), &current));
}

#[test]
fn fresh_cache_starts_outdated() {
    let c = CacheImporterProcessor::fresh_cache(CacheMetadata::new(generation()), "i".to_string(), "a".to_string());
    assert!(c.is_outdated());
    assert!(c.entries().is_empty());
}

#[test]
fn generated_hash_is_ten_alphanumerics() {
    let p = CacheImporterProcessor::new();
    let a = p.generate_hash();
    assert_eq!(a.chars().count(), 10);
    assert!(a.chars().all(|c| c.is_ascii_alphanumeric()));
    let b = p.generate_hash();
    let c = p.generate_hash();
    assert!(a != b || b != c);
}

#[test]
fn identifier_search_steps() {
    let mut s = IdentifierSearch::new();
    assert_eq!(s.tries, 100);
    assert_eq!(s.step(true), SearchStep::Retry);
    assert_eq!(s.tries, 99);
    assert_eq!(s.step(false), SearchStep::Accept);
    let mut last = IdentifierSearch { tries: 1 };
    assert_eq!(last.step(true), SearchStep::Retry);
    assert_eq!(last.step(false), SearchStep::GiveUp);
}

#[test]
fn identifier_needs() {
    assert!(CacheImporterProcessor::needs_new_identifier("", PathState::Missing));
    assert!(!CacheImporterProcessor::needs_new_identifier("abc", PathState::Directory));
    assert!(!CacheImporterProcessor::needs_new_identifier("abc", PathState::Missing));
    assert!(CacheImporterProcessor::needs_new_identifier("abc", PathState::File));
    assert!(CacheImporterProcessor::needs_new_identifier("abc", PathState::Unreadable));
}

#[test]
fn import_decisions() {
    assert_eq!(CacheImporterProcessor::decide_import(true, LoadOutcome::Loaded { same_version: true }), ImportAction::CreateNew);
    assert_eq!(CacheImporterProcessor::decide_import(false, LoadOutcome::Loaded { same_version: true }), ImportAction::UseLoaded);
    assert_eq!(CacheImporterProcessor::decide_import(false, LoadOutcome::Loaded { same_version: false }), ImportAction::CreateNew);
    assert_eq!(CacheImporterProcessor::decide_import(false, LoadOutcome::FileNotFound), ImportAction::CreateNew);
    assert_eq!(CacheImporterProcessor::decide_import(false, LoadOutcome::UnreadableData), ImportAction::Fail);
    assert_eq!(CacheImporterProcessor::decide_import(false, LoadOutcome::BrokenData), ImportAction::CreateNew);
}

#[test]
fn setting_statuses() {
    assert_eq!(CacheImporterProcessor::cache_path_status(""), ConfigStatus::Modified);
    assert_eq!(CacheImporterProcessor::cache_path_status("cache"), ConfigStatus::NotModified);
    assert_eq!(CacheImporterProcessor::identifier_status(&"x".to_string(), &"x".to_string()), ConfigStatus::NotModified);
    assert_eq!(CacheImporterProcessor::identifier_status(&"".to_string(), &"x".to_string()), ConfigStatus::Modified);
}

#[test]
fn verbosity_switch() {
    let mut p = CacheImporterProcessor::new();
    assert!(!p.is_verbose());
    p.verbose(true);
    assert!(p.is_verbose());
    let mut e = CacheExporterProcessor::new();
    e.verbose(true);
    assert!(e.is_verbose());
}

#[test]
fn record_of_an_image() {
    let image = Graphic::Image(Image {
        graphic_source: gs(Some(Rectangle { x: 4, y: 6, width: 2, height: 2 })),
        source_path: "in/items/sword.ase".to_string(),
    });
    let rec = CacheExporterProcessor::graphic_record(&image, "in").ok().flatten().unwrap();
    assert_eq!(rec.location, "items/sword");
    assert_eq!(rec.extension, "ase");
    assert_eq!(
        rec.data.frames,
        vec![FrameData::Contents {
            atlas_region: Rectangle { x: 4, y: 6, width: 2, height: 2 },
            duration: None,
            source_region: Rectangle { x: 0, y: 0, width: 2, height: 2 },
        }]
    );
    assert!(rec.data.tracks.is_empty());
}

#[test]
fn record_errors() {
    let unplaced = Graphic::Image(Image { graphic_source: gs(None), source_path: "in/a.ase".to_string() });
    assert_eq!(CacheExporterProcessor::graphic_record(&unplaced, "in").err(), Some(RecordError::MissingAtlasRegion));
    let outside = Graphic::Image(Image { graphic_source: gs(None), source_path: "elsewhere/a.ase".to_string() });
    assert_eq!(CacheExporterProcessor::graphic_record(&outside, "in").err(), Some(RecordError::SourceOutsideInput));
    assert!(matches!(CacheExporterProcessor::graphic_record(&Graphic::Empty, "in"), Ok(None)));
}

#[test]
fn record_of_an_animation() {
    let mut a = Animation::new("in/hero.aseprite".to_string());
    a.push_frame(Frame::Contents { graphic_source: gs(Some(Rectangle { x: 1, y: 1, width: 2, height: 2 })), duration: 80 });
    a.push_frame(Frame::Empty);
    a.push_frame(Frame::Contents { graphic_source: gs(None), duration: 20 });
    let mut track = Track::new(Some("idle".to_string()));
    track.frame_indices = vec![0, 1];
    a.push_track(track);
    let rec = CacheExporterProcessor::graphic_record(&Graphic::Animation(a), "in").ok().flatten().unwrap();
    assert_eq!(rec.location, "hero");
    assert_eq!(rec.extension, "aseprite");
    assert_eq!(
        rec.data.frames,
        vec![
            FrameData::Contents {
                atlas_region: Rectangle { x: 1, y: 1, width: 2, height: 2 },
                duration: Some(80),
                source_region: Rectangle { x: 0, y: 0, width: 2, height: 2 },
            },
            FrameData::Empty,
            FrameData::Contents {
                atlas_region: Rectangle { x: 0, y: 0, width: 0, height: 0 },
                duration: Some(20),
                source_region: Rectangle { x: 0, y: 0, width: 2, height: 2 },
            },
        ]
    );
    assert_eq!(rec.data.tracks.entries().len(), 1);
    assert_eq!(rec.data.tracks.entries()[0].frame_indices, vec![0, 1]);
}

#[test]
fn cached_frames_round_trip() {
    let mut a = Animation::new("in/hero.ase".to_string());
    a.push_frame(Frame::Contents { graphic_source: gs(Some(Rectangle { x: 1, y: 1, width: 2, height: 2 })), duration: 80 });
    a.push_frame(Frame::Empty);
    let rec = CacheExporterProcessor::graphic_record(&Graphic::Animation(a), "in").ok().flatten().unwrap();
    let entry = CacheEntry::new(ModTime { secs: 1, nanos: 0 }, rec.extension, rec.data, rec.location);
    let sources = vec![
        GraphicSourceData { source: gs(None), frame_index: 0 },
        GraphicSourceData { source: gs(None), frame_index: 1 },
    ];
    match entry.graphic_from_sources(sources, "in/hero.ase".to_string()) {
        Graphic::Animation(b) => {
            assert!(matches!(&b.frames[0], Frame::Contents { duration: 80, .. }));
            assert!(matches!(&b.frames[1], Frame::Empty));
        }
        _ => panic!("expected an animation"),
    }
}

#[test]
fn hash_spells_the_drawn_indices() {
    let h = CacheImporterProcessor::hash_from_indices(&vec![0, 25, 26, 51, 52, 61, 1, 1, 2, 3]);
    assert_eq!(h, "AZaz09BBCD");
    assert_eq!(CacheImporterProcessor::hash_from_indices(&vec![]), "");
}

#[test]
fn records_are_registered_where_their_directory_is() {
    let mut cache = Cache::new(CacheMetadata::new(generation()), "img".to_string(), "atlas".to_string());
    let record = |location: &str| GraphicRecord {
        location: location.to_string(),
        extension: "ase".to_string(),
        data: GraphicData::new(),
    };
    let records = vec![record("a"), record("b"), record("a")];
    let found = vec![Some(ModTime { secs: 1, nanos: 0 }), None, Some(ModTime { secs: 3, nanos: 0 })];
    CacheExporterProcessor::register_records(&mut cache, records, &found);
    assert_eq!(cache.entries().len(), 1);
    assert!(matches!(cache.retrieve(&"a".to_string(), ModTime { secs: 3, nanos: 0 }), CacheStatus::Found(_)));
    assert!(matches!(cache.retrieve(&"a".to_string(), ModTime { secs: 1, nanos: 0 }), CacheStatus::Outdated));
    assert!(matches!(cache.retrieve(&"b".to_string(), ModTime { secs: 1, nanos: 0 }), CacheStatus::NotFound));
}
