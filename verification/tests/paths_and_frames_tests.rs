use clymene::data::FrameData;
use clymene::image::{get_regions, parse_u32, sort_by_frame_index, try_retrieve_frame_index, GraphicSourceData};
use clymene::graphics::{GraphicSource, PixelBuffer};
use clymene::math::Rectangle;
use clymene::paths::relative_location;

fn source(frame_index: u32) -> GraphicSourceData {
    GraphicSourceData {
        source: GraphicSource {
            buffer: PixelBuffer { width: 1, height: 1, pixels: vec![frame_index as u8, 0, 0, 0] },
            region: Rectangle { x: 0, y: 0, width: 1, height: 1 },
            atlas_region: None,
        },
        frame_index,
    }
}

#[test]
fn relative_location_strips_input_and_extension() {
    assert_eq!(relative_location("input/sprites/hero.ase", "input"), Some("sprites/hero".to_string()));
    assert_eq!(relative_location("input/hero.aseprite", "input/"), Some("hero".to_string()));
    assert_eq!(relative_location("other/hero.ase", "input"), None);
}

#[test]
fn parse_u32_follows_from_str() {
    assert_eq!(parse_u32("12"), Some(12));
    assert_eq!(parse_u32("007"), Some(7));
    assert_eq!(parse_u32("+7"), Some(7));
    assert_eq!(parse_u32("4294967295"), Some(u32::MAX));
    assert_eq!(parse_u32("4294967296"), None);
    assert_eq!(parse_u32("99999999999999"), None);
    assert_eq!(parse_u32(""), None);
    assert_eq!(parse_u32("+"), None);
    assert_eq!(parse_u32("-1"), None);
    assert_eq!(parse_u32("1a"), None);
    assert_eq!(parse_u32(" 1"), None);
    for n in [0u32, 5, 10, 123, 65535, u32::MAX] {
        assert_eq!(parse_u32(&n.to_string()), n.to_string().parse::<u32>().ok());
    }
}

#[test]
fn frame_index_comes_from_file_stem() {
    assert_eq!(try_retrieve_frame_index("cache/images/hero/3.png"), Some(3));
    assert_eq!(try_retrieve_frame_index("12.png"), Some(12));
    assert_eq!(try_retrieve_frame_index("cache/images/hero/data.json"), None);
    assert_eq!(try_retrieve_frame_index("cache/images/hero/x.png"), None);
}

#[test]
fn frame_number_round_trip() {
    for n in [0u32, 1, 9, 10, 42, 1000, u32::MAX] {
        let name = format!("dir/{}.png", n);
        assert_eq!(try_retrieve_frame_index(&name), Some(n));
    }
}

#[test]
fn regions_from_frame_data() {
    let frames = vec![
        FrameData::Empty,
        FrameData::Contents {
            atlas_region: Rectangle { x: 4, y: 8, width: 16, height: 16 },
            duration: Some(100),
            source_region: Rectangle { x: 1, y: 2, width: 3, height: 4 },
        },
        FrameData::Contents {
            atlas_region: Rectangle { x: 0, y: 0, width: 0, height: 0 },
            duration: None,
            source_region: Rectangle { x: 5, y: 5, width: 0, height: 2 },
        },
    ];
    let empty = Rectangle { x: 0, y: 0, width: 0, height: 0 };
    assert_eq!(get_regions(0, &frames), (empty, None));
    assert_eq!(
        get_regions(1, &frames),
        (Rectangle { x: 1, y: 2, width: 3, height: 4 }, Some(Rectangle { x: 4, y: 8, width: 16, height: 16 }))
    );
    assert_eq!(get_regions(2, &frames), (empty, None));
    assert_eq!(get_regions(7, &frames), (empty, None));
}

#[test]
fn sources_sorted_by_frame_index() {
    let sorted = sort_by_frame_index(vec![source(3), source(0), source(2), source(1), source(2)]);
    let order: Vec<u32> = sorted.iter().map(|s| s.frame_index).collect();
    assert_eq!(order, vec![0, 1, 2, 2, 3]);
    for s in &sorted {
        assert_eq!(s.source.buffer.pixels[0] as u32, s.frame_index);
    }
    assert!(sort_by_frame_index(Vec::new()).is_empty());
}
