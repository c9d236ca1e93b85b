use pathtracer::output::{has_suffix, png_name, preview_path, render_path};

#[test]
fn suffixes() {
    assert!(has_suffix("out.png", ".png"));
    assert!(has_suffix(".png", ".png"));
    assert!(has_suffix("anything", ""));
    assert!(has_suffix("", ""));
    assert!(!has_suffix("png", ".png"));
    assert!(!has_suffix("out.PNG", ".png"));
    assert!(!has_suffix("out.png ", ".png"));
    assert!(!has_suffix("", ".png"));
    assert!(!has_suffix("out.pngx", ".png"));
}

#[test]
fn suffixes_agree_with_std() {
    let names = ["", "a", ".png", "a.png", "a.png.png", "a.jpg", "png", "ä.png", "a.pn", "a.pngg"];
    let suffixes = ["", ".png", "g", "a.png", "ä.png", "xyz"];
    for name in names.iter() {
        for suffix in suffixes.iter() {
            assert_eq!(has_suffix(name, suffix), name.ends_with(suffix), "{:?} {:?}", name, suffix);
        }
    }
}

#[test]
fn the_extension_is_added_once() {
    assert_eq!(png_name("out".to_string()), "out.png");
    assert_eq!(png_name("out.png".to_string()), "out.png");
    assert_eq!(png_name("".to_string()), ".png");
    assert_eq!(png_name("out.jpg".to_string()), "out.jpg.png");
    assert_eq!(png_name("out.PNG".to_string()), "out.PNG.png");
}

#[test]
fn renders_go_to_the_images_directory() {
    assert_eq!(render_path("out"), "images/out.png");
    assert_eq!(render_path("cornell.png"), "images/cornell.png");
    assert_eq!(render_path(""), "images/.png");
}

#[test]
fn previews_are_marked() {
    assert_eq!(preview_path("out"), "images/out_preview.png");
    assert_eq!(preview_path("out.png"), "images/out.png_preview.png");
    assert_eq!(preview_path(""), "images/_preview.png");
}
