use ferari::atlas::{Atlas, Frame};

fn frame(name: &str, x: u32) -> Frame {
    Frame { name: name.to_string(), x, y: 0, w: 128, h: 40 }
}

fn atlas() -> Atlas {
    let image = image::DynamicImage::ImageRgba8(image::RgbaImage::new(2, 2));
    let mut a = Atlas::new(image, 128, 1);
    a.insert_frame(frame("floor", 0));
    a.insert_frame(frame("target", 128));
    a.insert_frame(frame("letter_1", 256));
    a
}

#[test]
fn atlas_lookups() {
    let a = atlas();
    assert_eq!(a.frame_count(), 3);
    assert!(a.contains_frame("floor"));
    assert!(!a.contains_frame("wall"));
    let f = a.get_frame("target").unwrap();
    assert_eq!((f.x, f.w, f.h), (128, 128, 40));
    assert!(a.get_frame("missing").is_none());
    let names: Vec<&str> = a.iter_frames().iter().map(|f| f.name.as_str()).collect();
    assert_eq!(names, vec!["floor", "target", "letter_1"]);
    assert_eq!((a.tile_size, a.version), (128, 1));
}

#[test]
fn inserting_a_known_name_replaces_its_frame() {
    let mut a = atlas();
    a.insert_frame(frame("target", 768));
    assert_eq!(a.frame_count(), 3);
    assert_eq!(a.get_frame("target").unwrap().x, 768);
}
