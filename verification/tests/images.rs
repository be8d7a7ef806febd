use avatarplugin::loader::image::decode_images;
use avatarplugin::loader::{ImageData, LoadError};

fn png_bytes(width: u32, height: u32, pixels: Vec<u8>) -> Vec<u8> {
    let img = image::RgbaImage::from_raw(width, height, pixels).unwrap();
    let mut out = std::io::Cursor::new(Vec::new());
    img.write_to(&mut out, image::ImageFormat::Png).unwrap();
    out.into_inner()
}

#[test]
fn image_load_decodes_png_to_rgba() {
    let pixels = vec![255, 0, 0, 255, 0, 255, 0, 128];
    let bytes = png_bytes(2, 1, pixels.clone());
    let img = ImageData::load("face/0.png", &bytes).unwrap();
    assert_eq!(img.path, "face/0.png");
    assert_eq!((img.width, img.height), (2, 1));
    assert_eq!(img.data, pixels);
}

#[test]
fn image_load_reports_undecodable_files() {
    let bytes = png_bytes(1, 1, vec![1, 2, 3, 4]);
    for (path, content) in [("face/0.txt", bytes.clone()), ("face/noext", bytes.clone()), ("face/0.png", vec![1, 2, 3])] {
        match ImageData::load(path, &content) {
            Err(LoadError::InvalidConfig(m)) => {
                assert!(m.starts_with("Failed to load image: "), "{}", m);
                assert!(m.len() > "Failed to load image: ".len(), "{}", m);
            },
            other => panic!("unexpected {:?}", other.map(|i| i.path)),
        }
    }
}

#[test]
fn decode_images_records_each_outcome() {
    let files = vec![
        ("a.png".to_string(), png_bytes(1, 1, vec![1, 1, 1, 1])),
        ("bad.png".to_string(), vec![0, 1, 2]),
        ("a.png".to_string(), png_bytes(1, 2, vec![2, 2, 2, 2, 3, 3, 3, 3])),
        ("c.png".to_string(), png_bytes(1, 1, vec![9, 9, 9, 9])),
    ];
    let store = decode_images(&files);
    assert_eq!(store.len(), 3);
    match store.get("bad.png") {
        Some(Err(m)) => assert!(m.starts_with("Failed to load image: "), "{}", m),
        _ => panic!("bad.png should be stored as a failure"),
    }
    assert_eq!(store.get("a.png").unwrap().as_ref().unwrap().height, 2);
    assert_eq!(store.get("c.png").unwrap().as_ref().unwrap().data, vec![9, 9, 9, 9]);
    for p in ["a.png", "c.png"] {
        let img = store.get(p).unwrap().as_ref().unwrap();
        assert_eq!(img.path, p);
        assert_eq!(img.data.len(), 4 * img.width as usize * img.height as usize);
    }
}

#[test]
fn image_load_error_carries_decoder_text() {
    let bytes = png_bytes(1, 1, vec![1, 2, 3, 4]);
    let expected = image::ImageFormat::from_path("face/0.txt").unwrap_err().to_string();
    match ImageData::load("face/0.txt", &bytes) {
        Err(LoadError::InvalidConfig(m)) => assert_eq!(m, format!("Failed to load image: {}", expected)),
        other => panic!("unexpected {:?}", other.map(|i| i.path)),
    }
    let broken = vec![0x89, b'P', b'N', b'G'];
    let expected = image::ImageReader::with_format(std::io::Cursor::new(&broken), image::ImageFormat::Png)
        .decode()
        .unwrap_err()
        .to_string();
    match ImageData::load("face/0.png", &broken) {
        Err(LoadError::InvalidConfig(m)) => assert_eq!(m, format!("Failed to load image: {}", expected)),
        other => panic!("unexpected {:?}", other.map(|i| i.path)),
    }
}
