use avatarplugin::loader::{
    Avatar, AvatarLoader, AvatarSettings, AvatarSources, FaceConfig, ImageData, ImageStore, LoadError, LoadedMode, ModeConfig,
    ModeListConfig,
};
use avatarplugin::str_map::StrMap;
use avatarplugin::text::path_join;
use std::cell::Cell;

fn image(path: &str, width: u32) -> ImageData {
    ImageData { path: path.to_string(), width, height: 2, data: vec![1, 2, 3, 4] }
}

fn store_with(paths: &[&str]) -> ImageStore {
    let mut store = ImageStore::new();
    for (i, p) in paths.iter().enumerate() {
        let width = i as u32 + 1;
        let img = ImageData { path: p.to_string(), width, height: 1, data: vec![7; 4 * width as usize] };
        assert!(store.insert_image(img));
    }
    store
}

fn s(v: &str) -> String {
    v.to_string()
}

fn empty_mode_config() -> ModeConfig {
    ModeConfig {
        version: None,
        background_image: s("bg.png"),
        cat_background_image: s("cat.png"),
        has_model: false,
        cat_model_path: None,
        key_mapping: None,
        left_hand_up_image: None,
        right_hand_up_image: None,
        keys_image_path: None,
        keys_images: None,
        key_bindings: None,
        left_hand_image_path: None,
        left_hand_images: None,
        right_hand_image_path: None,
        right_hand_images: None,
        has_left_hand_model: false,
        left_hand_model_path: None,
        has_right_hand_model: false,
        right_hand_model_path: None,
    }
}

fn settings() -> AvatarSettings {
    AvatarSettings {
        default_mode: s("keyboard"),
        default_face: Some(s("f1")),
        canvas_width: 1280,
        canvas_height: 768,
        fps: 60,
    }
}

fn bare_avatar(dir: &str) -> Avatar {
    Avatar::load_from_file(
        dir,
        Some(s(dir)),
        Ok(FaceConfig { hot_keys: vec![], face_images: vec![] }),
        Ok(ModeListConfig { model_paths: vec![] }),
        vec![],
        &ImageStore::new(),
    )
    .unwrap()
}

#[test]
fn test_load_avatar() {
    let json = r#"
        {
            "avatar": {
                "name": "Bongo Cat",
                "version": "1.0.0",
                "author": "Original by @StrayRogue, Ported by TakiMoysha",
                "description": "Classic Bongo Cat avatar with keyboard mode support",
                "settings": {
                    "default_mode": "keyboard",
                    "default_face": "f1",
                    "canvas_width": 1280,
                    "canvas_height": 768,
                    "fps": 60
                },
                "faces": {
                    "enabled": true,
                    "base_path": "face",
                    "config_file": "face/config.json",
                    "expressions": {
                        "f1": {
                            "name": "Normal",
                            "file": "face/0.png",
                            "description": "Default neutral expression"
                        }
                    }
                },
                "modes": {
                    "enabled": true,
                    "base_path": "mode",
                    "config_file": "mode/config.json",
                    "available": [
                        {
                            "id": "keyboard",
                            "name": "Keyboard Mode",
                            "description": "Bongo Cat plays on keyboard",
                            "config": "mode/keyboard/config.json",
                            "features": ["hands", "keys", "background"],
                            "recommended": true
                        }
                    ]
                }
            }
        }
        "#;
    let config: serde_json::Value = serde_json::from_str(json).unwrap();
    assert_eq!(config["avatar"]["name"], "Bongo Cat");
    let st = &config["avatar"]["settings"];
    let parsed = AvatarSettings {
        default_mode: st["default_mode"].as_str().unwrap().to_string(),
        default_face: st["default_face"].as_str().map(|f| f.to_string()),
        canvas_width: st["canvas_width"].as_u64().unwrap() as u32,
        canvas_height: st["canvas_height"].as_u64().unwrap() as u32,
        fps: st["fps"].as_u64().unwrap() as u32,
    };
    let avatar = Avatar::load_from_config("assets/bongo_cat/avatar.json", Ok(parsed), |dir| Ok(bare_avatar(&dir)))
        .unwrap();
    assert_eq!(avatar.base_path, "assets/bongo_cat");
    assert_eq!(avatar.config_path, "assets/bongo_cat/avatar.json");
    let got = avatar.settings.unwrap();
    assert_eq!(got.default_mode, "keyboard");
    assert_eq!(got.default_face.as_deref(), Some("f1"));
    assert_eq!((got.canvas_width, got.canvas_height, got.fps), (1280, 768, 60));
}

#[test]
fn test_avatar_loader() {
    let loader = AvatarLoader::new();
    assert_eq!(loader.cache.len(), 0);
}

#[test]
fn load_from_config_settings_error_comes_first() {
    let calls = Cell::new(0);
    let r = Avatar::load_from_config("a/avatar.json", Err(LoadError::InvalidConfig(s("bad json"))), |dir| {
        calls.set(calls.get() + 1);
        Ok(bare_avatar(&dir))
    });
    assert!(matches!(r, Err(LoadError::InvalidConfig(m)) if m == "bad json"));
    assert_eq!(calls.get(), 0);
}

#[test]
fn load_from_config_without_parent_is_invalid() {
    let r = Avatar::load_from_config("/", Ok(settings()), |dir| Ok(bare_avatar(&dir)));
    assert!(matches!(r, Err(LoadError::InvalidConfig(m)) if m == "Invalid config path"));
}

fn bare_sources(hot_keys: Vec<String>) -> AvatarSources {
    let face_images = hot_keys.iter().map(|k| format!("{}.png", k)).collect();
    AvatarSources {
        face_config: Ok(FaceConfig { hot_keys, face_images }),
        mode_list: Ok(ModeListConfig { model_paths: vec![] }),
        mode_configs: vec![],
        images: ImageStore::new(),
    }
}

#[test]
fn avatar_loader_caches_by_canonical_path() {
    let mut loader = AvatarLoader::new();
    let calls = Cell::new(0);
    let a = loader
        .load("cats/../cat", Some(s("/abs/cat")), || {
            calls.set(calls.get() + 1);
            bare_sources(vec![s("f1")])
        })
        .unwrap();
    assert_eq!(a.name, "cat");
    assert_eq!(a.base_path, "cats/../cat");
    assert_eq!(a.config_path, "/abs/cat");
    assert!(a.settings.is_none());
    let b = loader
        .load("cat", Some(s("/abs/cat")), || {
            calls.set(calls.get() + 1);
            bare_sources(vec![s("f2")])
        })
        .unwrap();
    assert_eq!(b.base_path, "cats/../cat");
    assert_eq!(b.face_config.hot_keys, vec![s("f1")]);
    assert_eq!(calls.get(), 1);
    assert_eq!(loader.cache.len(), 1);
    assert!(loader.cache.contains_key("/abs/cat"));
    loader.clear_cache();
    assert_eq!(loader.cache.len(), 0);
}

#[test]
fn avatar_loader_without_canonical_path_fails() {
    let mut loader = AvatarLoader::new();
    let r = loader.load("plain", None, || bare_sources(vec![]));
    assert!(matches!(r, Err(LoadError::InvalidConfig(m)) if m == "Invalid config path"));
    assert_eq!(loader.cache.len(), 0);
}

#[test]
fn avatar_loader_reload_fetches_again() {
    let mut loader = AvatarLoader::new();
    loader.load("cat", Some(s("/abs/cat")), || bare_sources(vec![s("f1")])).unwrap();
    let calls = Cell::new(0);
    let a = loader
        .reload("cat", Some(s("/abs/cat")), || {
            calls.set(calls.get() + 1);
            bare_sources(vec![s("f2")])
        })
        .unwrap();
    assert_eq!(a.face_config.hot_keys, vec![s("f2")]);
    assert_eq!(calls.get(), 1);
    // A failed reload leaves nothing cached under the key.
    let r = loader.reload("cat", Some(s("/abs/cat")), || {
        let mut src = bare_sources(vec![]);
        src.mode_list = Err(LoadError::InvalidConfig(s("gone")));
        src
    });
    assert!(matches!(r, Err(LoadError::InvalidConfig(m)) if m == "gone"));
    assert_eq!(loader.cache.len(), 0);
}

#[test]
fn face_images_sit_at_paired_names() {
    let mut images = ImageStore::new();
    for p in ["cat/face/0.png", "cat/face/1.png"] {
        assert!(images.insert_image(ImageData { path: s(p), width: 1, height: 1, data: vec![0, 0, 0, 255] }));
    }
    let avatar = Avatar::load_from_file(
        "cat",
        Some(s("/abs/cat")),
        Ok(FaceConfig { hot_keys: vec![s("f1"), s("f2"), s("f3")], face_images: vec![s("0.png"), s("1.png"), s("2.png")] }),
        Ok(ModeListConfig { model_paths: vec![] }),
        vec![],
        &images,
    )
    .unwrap();
    assert_eq!(avatar.get_face_by_key("f1").unwrap().path, "cat/face/0.png");
    assert_eq!(avatar.get_face_by_key("f2").unwrap().path, "cat/face/1.png");
    assert!(avatar.get_face_by_key("f3").is_none());
}

#[test]
fn image_store_checks_what_it_records() {
    let mut store = ImageStore::new();
    assert!(!store.insert_image(ImageData { path: s("a.png"), width: 2, height: 2, data: vec![0; 15] }));
    assert_eq!(store.len(), 0);
    assert!(store.insert_image(ImageData { path: s("a.png"), width: 2, height: 2, data: vec![0; 16] }));
    store.insert_failure(s("b.png"), "No such file or directory (os error 2)");
    assert_eq!(store.len(), 2);
    assert!(store.contains_key("a.png"));
    match store.get("b.png") {
        Some(Err(m)) => assert_eq!(m, "Failed to load image: No such file or directory (os error 2)"),
        _ => panic!("b.png should be a failure"),
    }
}

#[test]
fn load_from_file_requires_canonical_path() {
    let r = Avatar::load_from_file(
        "cat",
        None,
        Ok(FaceConfig { hot_keys: vec![], face_images: vec![] }),
        Ok(ModeListConfig { model_paths: vec![] }),
        vec![],
        &ImageStore::new(),
    );
    assert!(matches!(r, Err(LoadError::InvalidConfig(m)) if m == "Invalid config path"));
}

#[test]
fn load_from_file_propagates_config_errors_in_order() {
    let r = Avatar::load_from_file(
        "cat",
        Some(s("/cat")),
        Err(LoadError::InvalidConfig(s("face"))),
        Err(LoadError::InvalidConfig(s("modes"))),
        vec![],
        &ImageStore::new(),
    );
    assert!(matches!(r, Err(LoadError::InvalidConfig(m)) if m == "face"));
    let r = Avatar::load_from_file(
        "cat",
        Some(s("/cat")),
        Ok(FaceConfig { hot_keys: vec![], face_images: vec![] }),
        Err(LoadError::InvalidConfig(s("modes"))),
        vec![],
        &ImageStore::new(),
    );
    assert!(matches!(r, Err(LoadError::InvalidConfig(m)) if m == "modes"));
}

#[test]
fn load_from_file_assembles_faces_and_modes() {
    let store = store_with(&["bongo_cat/face/0.png", "bongo_cat/face/2.png", "bongo_cat/mode/keyboard/bg.png"]);
    let face = FaceConfig {
        hot_keys: vec![s("f1"), s("f2"), s("f3"), s("f4")],
        face_images: vec![s("0.png"), s("1.png"), s("2.png")],
    };
    assert_eq!(
        Avatar::face_image_paths("bongo_cat", &face),
        vec![s("bongo_cat/face/0.png"), s("bongo_cat/face/1.png"), s("bongo_cat/face/2.png")]
    );
    let modes = ModeListConfig { model_paths: vec![s("keyboard"), s("broken"), s("standard")] };
    let avatar = Avatar::load_from_file(
        "bongo_cat",
        Some(s("/home/u/bongo_cat")),
        Ok(face),
        Ok(modes),
        vec![Some(empty_mode_config()), None],
        &store,
    )
    .unwrap();
    assert_eq!(avatar.name, "bongo_cat");
    assert_eq!(avatar.base_path, "bongo_cat");
    assert_eq!(avatar.config_path, "/home/u/bongo_cat");
    assert!(avatar.settings.is_none());
    assert_eq!(avatar.face_images.len(), 2);
    assert_eq!(avatar.get_face_by_key("f1").unwrap().path, "bongo_cat/face/0.png");
    assert!(avatar.get_face_by_key("f2").is_none());
    assert_eq!(avatar.get_face_by_key("f3").unwrap().path, "bongo_cat/face/2.png");
    assert!(avatar.get_face_by_key("f4").is_none());
    assert_eq!(avatar.available_modes, vec![s("keyboard"), s("broken"), s("standard")]);
    assert_eq!(avatar.modes.len(), 1);
    let mode = avatar.get_mode("keyboard").unwrap();
    assert_eq!(mode.base_path, "bongo_cat/mode/keyboard");
    assert_eq!(mode.background.as_ref().unwrap().path, "bongo_cat/mode/keyboard/bg.png");
    assert!(mode.cat_background.is_none());
    assert!(avatar.get_mode("broken").is_none());
    assert!(avatar.get_mode("standard").is_none());
    assert_eq!(avatar.get_default_mode().unwrap().name, "keyboard");
}

#[test]
fn default_mode_is_first_listed_only() {
    let avatar = Avatar::load_from_file(
        "/x/cat",
        Some(s("/x/cat")),
        Ok(FaceConfig { hot_keys: vec![], face_images: vec![] }),
        Ok(ModeListConfig { model_paths: vec![s("missing"), s("ok")] }),
        vec![None, Some(empty_mode_config())],
        &ImageStore::new(),
    )
    .unwrap();
    assert!(avatar.get_mode("ok").is_some());
    assert!(avatar.get_default_mode().is_none());
}

#[test]
fn avatar_name_falls_back_to_avatar() {
    let avatar = bare_avatar("/");
    assert_eq!(avatar.name, "avatar");
    let avatar = bare_avatar("assets/bongo_cat/");
    assert_eq!(avatar.name, "bongo_cat");
}

#[test]
fn key_mapping_assigns_hands() {
    let mut c = empty_mode_config();
    c.key_mapping = Some(vec![
        (s("a"), vec![s("keys/a.png"), s("lefthand/a.png")]),
        (s("up"), vec![s("keys/up.png"), s("hands/up.png")]),
        (s("30"), vec![s("keys/n30.png"), s("righthand/x.png")]),
        (s("57"), vec![s("keys/space.png"), s("hands/space.png")]),
        (s("nokey"), vec![s("keys/nokey.png"), s("hands/nokey.png")]),
        (s("short"), vec![s("keys/short.png")]),
    ]);
    let store = store_with(&[
        "m/keys/a.png",
        "m/lefthand/a.png",
        "m/keys/up.png",
        "m/hands/up.png",
        "m/righthand/x.png",
        "m/hands/space.png",
        "m/keys/nokey.png",
        "m/hands/nokey.png",
        "m/keys/short.png",
    ]);
    let mode = LoadedMode::load("m", "keyboard", c, &store).unwrap();
    assert_eq!(mode.name, "keyboard");
    assert_eq!(mode.key_images.len(), 3);
    assert!(mode.key_images.contains_key("a"));
    assert!(mode.key_images.contains_key("up"));
    assert!(mode.key_images.contains_key("nokey"));
    assert!(!mode.key_images.contains_key("short"));
    // "a" is key 30 on the left hand; "30" names the same key, on the right hand.
    assert_eq!(mode.left_hand_key_frames.len(), 2);
    assert_eq!(mode.left_hand_key_frames[&30].path, "m/lefthand/a.png");
    assert_eq!(mode.left_hand_key_frames[&57].path, "m/hands/space.png");
    assert_eq!(mode.right_hand_key_frames.len(), 2);
    assert_eq!(mode.right_hand_key_frames[&103].path, "m/hands/up.png");
    assert_eq!(mode.right_hand_key_frames[&30].path, "m/righthand/x.png");
    assert!(mode.left_hand.is_none());
    assert!(mode.face_images.is_empty());
}

#[test]
fn direct_hands_and_backgrounds() {
    let mut c = empty_mode_config();
    c.left_hand_up_image = Some(s("left_up.png"));
    c.right_hand_up_image = Some(s(""));
    c.key_mapping = Some(vec![]);
    c.left_hand_image_path = Some(s("legacy_left"));
    let store = store_with(&["m/bg.png", "m/cat.png", "m/left_up.png"]);
    let mode = LoadedMode::load("m", "standard", c, &store).unwrap();
    assert_eq!(mode.background.as_ref().unwrap().path, "m/bg.png");
    assert_eq!(mode.cat_background.as_ref().unwrap().path, "m/cat.png");
    let left = mode.left_hand.as_ref().unwrap();
    assert_eq!(left.up_image.path, "m/left_up.png");
    assert!(left.frame_images.is_empty());
    assert!(mode.right_hand.is_none());
}

#[test]
fn legacy_format_loads_hands_and_keys() {
    let mut c = empty_mode_config();
    c.left_hand_image_path = Some(s("lefthand"));
    c.left_hand_up_image = Some(s("up.png"));
    c.left_hand_images = Some(vec![s("0.png"), s("1.png"), s("2.png")]);
    c.right_hand_image_path = Some(s("righthand"));
    c.right_hand_up_image = None;
    c.keys_image_path = Some(s("keys"));
    c.keys_images = Some(vec![s("q.png"), s(""), s("e.png")]);
    c.key_bindings = Some(vec![s("q"), s("w"), s("e"), s("r")]);
    let store = store_with(&[
        "m/lefthand/up.png",
        "m/lefthand/0.png",
        "m/lefthand/2.png",
        "m/keys/q.png",
        "m/keys/e.png",
    ]);
    let paths = LoadedMode::image_paths("m", &c);
    assert_eq!(
        paths,
        vec![
            s("m/bg.png"),
            s("m/cat.png"),
            s("m/up.png"),
            s("m/lefthand/up.png"),
            s("m/lefthand/0.png"),
            s("m/lefthand/1.png"),
            s("m/lefthand/2.png"),
            s("m/keys/q.png"),
            s("m/keys/e.png"),
        ]
    );
    let mode = LoadedMode::load("m", "legacy", c, &store).unwrap();
    let left = mode.left_hand.as_ref().unwrap();
    assert_eq!(left.up_image.path, "m/lefthand/up.png");
    let frames: Vec<&str> = left.frame_images.iter().map(|f| f.path.as_str()).collect();
    assert_eq!(frames, vec!["m/lefthand/0.png", "m/lefthand/2.png"]);
    // No up image named: no right hand.
    assert!(mode.right_hand.is_none());
    assert_eq!(mode.key_images.len(), 2);
    assert_eq!(mode.key_images.get("q").unwrap().path, "m/keys/q.png");
    assert_eq!(mode.key_images.get("e").unwrap().path, "m/keys/e.png");
    assert!(mode.left_hand_key_frames.is_empty());
    assert!(mode.right_hand_key_frames.is_empty());
}

#[test]
fn legacy_hand_replaces_direct_hand() {
    let mut c = empty_mode_config();
    c.left_hand_up_image = Some(s("up.png"));
    c.left_hand_image_path = Some(s("lefthand"));
    // Direct image m/up.png loads, legacy m/lefthand/up.png does not.
    let store = store_with(&["m/up.png"]);
    let mode = LoadedMode::load("m", "legacy", c, &store).unwrap();
    assert!(mode.left_hand.is_none());
}

#[test]
fn lefthand_path_wins_over_arrow_key() {
    let mut c = empty_mode_config();
    c.key_mapping = Some(vec![
        (s("103"), vec![s("keys/up.png"), s("lefthand/up.png")]),
        (s("108"), vec![s("keys/down.png"), s("hands/down.png")]),
        (s("105"), vec![s("keys/left.png"), s("righthand/left.png")]),
    ]);
    let store = store_with(&["m/lefthand/up.png", "m/hands/down.png", "m/righthand/left.png"]);
    let mode = LoadedMode::load("m", "keyboard", c, &store).unwrap();
    assert_eq!(mode.left_hand_key_frames.len(), 1);
    assert_eq!(mode.left_hand_key_frames[&103].path, "m/lefthand/up.png");
    assert_eq!(mode.right_hand_key_frames.len(), 2);
    assert_eq!(mode.right_hand_key_frames[&108].path, "m/hands/down.png");
    assert_eq!(mode.right_hand_key_frames[&105].path, "m/righthand/left.png");
}

#[test]
fn hand_without_up_image_is_refused() {
    let store = store_with(&["mode/hand/1.png"]);
    match LoadedMode::load_hand_data("mode", "hand", &None, &Some(vec![s("1.png")]), &store) {
        Err(LoadError::InvalidConfig(m)) => assert_eq!(m, "Missing up image for hand"),
        other => panic!("unexpected {:?}", other.map(|h| h.up_image.path)),
    }
}

#[test]
fn hand_fails_with_its_up_image_error() {
    let mut store = store_with(&["mode/hand/1.png"]);
    store.insert_failure(s("mode/hand/up.png"), "broken");
    match LoadedMode::load_hand_data("mode", "hand", &Some(s("up.png")), &Some(vec![s("1.png")]), &store) {
        Err(LoadError::InvalidConfig(m)) => assert_eq!(m, "Failed to load image: broken"),
        other => panic!("unexpected {:?}", other.map(|h| h.up_image.path)),
    }
    match LoadedMode::load_hand_data("mode", "hand", &Some(s("gone.png")), &None, &store) {
        Err(LoadError::InvalidConfig(m)) => assert_eq!(m, "Failed to load image: mode/hand/gone.png"),
        other => panic!("unexpected {:?}", other.map(|h| h.up_image.path)),
    }
    let hand = LoadedMode::load_hand_data("mode", "hand", &Some(s("1.png")), &Some(vec![s("up.png"), s("1.png")]), &store)
        .unwrap();
    assert_eq!(hand.up_image.path, "mode/hand/1.png");
    let frames: Vec<&str> = hand.frame_images.iter().map(|f| f.path.as_str()).collect();
    assert_eq!(frames, vec!["mode/hand/1.png"]);
}

#[test]
fn legacy_hand_with_failed_up_image_is_absent() {
    let mut c = empty_mode_config();
    c.left_hand_image_path = Some(s("lefthand"));
    c.left_hand_up_image = Some(s("up.png"));
    let mut store = store_with(&["m/bg.png"]);
    store.insert_failure(s("m/lefthand/up.png"), "bad data");
    let mode = LoadedMode::load("m", "legacy", c, &store).unwrap();
    assert!(mode.left_hand.is_none());
}

#[test]
fn bare_config_file_name_loads_current_directory() {
    let dir = Cell::new(String::new());
    let avatar = Avatar::load_from_config("avatar.json", Ok(settings()), |d| {
        dir.set(d.clone());
        Ok(bare_avatar(&d))
    })
    .unwrap();
    assert_eq!(dir.take(), ".");
    assert_eq!(avatar.config_path, "avatar.json");
    assert_eq!(avatar.base_path, ".");
}

#[test]
fn image_paths_of_key_mapping() {
    let mut c = empty_mode_config();
    c.background_image = s("/abs/bg.png");
    c.left_hand_up_image = Some(s("l.png"));
    c.key_mapping = Some(vec![(s("a"), vec![s("k.png"), s("h.png"), s("extra.png")]), (s("b"), vec![s("only.png")])]);
    assert_eq!(
        LoadedMode::image_paths("mode/kb/", &c),
        vec![s("/abs/bg.png"), s("mode/kb/cat.png"), s("mode/kb/l.png"), s("mode/kb/k.png"), s("mode/kb/h.png")]
    );
}

#[test]
fn path_join_follows_path_rules() {
    assert_eq!(path_join("a", "b"), "a/b");
    assert_eq!(path_join("a/", "b"), "a/b");
    assert_eq!(path_join("", "b"), "b");
    assert_eq!(path_join("a", "/b"), "/b");
    assert_eq!(path_join("a", ""), "a/");
    for (base, name) in [("a", "b"), ("a/", "b"), ("x/y", "z.png"), ("a", "/b"), ("", "c")] {
        let expected = std::path::Path::new(base).join(name);
        assert_eq!(path_join(base, name), expected.to_str().unwrap());
    }
}

#[test]
fn str_map_insert_get_remove() {
    let mut m: StrMap<u32> = StrMap::new();
    m.insert(s("a"), 1);
    m.insert(s("b"), 2);
    m.insert(s("a"), 3);
    assert_eq!(m.len(), 2);
    assert_eq!(m.get("a"), Some(&3));
    assert_eq!(m.remove("a"), Some(3));
    assert_eq!(m.remove("a"), None);
    assert_eq!(m.get("a"), None);
    assert_eq!(m.len(), 1);
    let keys: Vec<&str> = m.entries().iter().map(|(k, _)| k.as_str()).collect();
    assert_eq!(keys, vec!["b"]);
}

#[test]
fn image_copy_keeps_contents() {
    let img = image("p.png", 7);
    let c = img.copy();
    assert_eq!((c.path.as_str(), c.width, c.height, c.data.clone()), ("p.png", 7, 2, vec![1, 2, 3, 4]));
}

#[test]
fn avatar_loader_default_is_empty() {
    let loader = AvatarLoader::default();
    assert_eq!(loader.cache.len(), 0);
}
