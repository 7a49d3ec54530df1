use avatar_plugin::asset::AssetFiles;
use avatar_plugin::avatar::{Avatar, AvatarLoader, AvatarManifests};
use avatar_plugin::config::{AvatarSettings, FaceConfig, ModeConfig, ModeListConfig};
use avatar_plugin::error::LoadError;
use avatar_plugin::input::InputEvent;
use avatar_plugin::keys::{classify_hand, Hand};
use avatar_plugin::mode::LoadedMode;
use avatar_plugin::render::{render_frame, select_frame, Layer};
use avatar_plugin::session::SourceState;

fn png(w: u32, h: u32, px: [u8; 4]) -> Vec<u8> {
    let img = image::RgbaImage::from_pixel(w, h, image::Rgba(px));
    let mut buf = std::io::Cursor::new(Vec::new());
    img.write_to(&mut buf, image::ImageFormat::Png).unwrap();
    buf.into_inner()
}

fn strings(v: &[&str]) -> Vec<String> {
    v.iter().map(|s| s.to_string()).collect()
}

fn empty_mode_config() -> ModeConfig {
    ModeConfig {
        version: None,
        background_image: String::new(),
        cat_background_image: String::new(),
        has_model: false,
        cat_model_path: None,
        key_mapping: None,
        left_hand_up_image: None,
        right_hand_up_image: None,
        keys_image_path: None,
        keys_images: None,
        key_bindings: None,
        left_hand_image_path: None,
        left_hand_images: None,
        right_hand_image_path: None,
        right_hand_images: None,
        has_left_hand_model: false,
        left_hand_model_path: None,
        has_right_hand_model: false,
        right_hand_model_path: None,
    }
}

fn keyboard_config() -> ModeConfig {
    let mut c = empty_mode_config();
    c.background_image = "bg.png".to_string();
    c.cat_background_image = "cat.png".to_string();
    c.left_hand_up_image = Some("lh.png".to_string());
    c.right_hand_up_image = Some("rh.png".to_string());
    c.key_mapping = Some(vec![(
        "a".to_string(),
        strings(&["keys/a.png", "lefthand/a_pose.png"]),
    )]);
    c
}

fn keyboard_files(root: &str) -> AssetFiles {
    let mut files = AssetFiles::new();
    let entries: [(&str, [u8; 4]); 7] = [
        ("face/0.png", [1, 1, 1, 255]),
        ("mode/keyboard/bg.png", [2, 2, 2, 255]),
        ("mode/keyboard/cat.png", [3, 3, 3, 255]),
        ("mode/keyboard/lh.png", [4, 4, 4, 255]),
        ("mode/keyboard/rh.png", [5, 5, 5, 255]),
        ("mode/keyboard/keys/a.png", [6, 6, 6, 255]),
        ("mode/keyboard/lefthand/a_pose.png", [7, 7, 7, 255]),
    ];
    for (p, px) in entries.iter() {
        files.add(format!("{}/{}", root, p), png(2, 2, *px));
    }
    files
}

fn keyboard_manifests() -> AvatarManifests {
    AvatarManifests {
        face: FaceConfig { hot_keys: strings(&["f1"]), face_images: strings(&["0.png"]) },
        mode_list: ModeListConfig { model_paths: strings(&["keyboard"]) },
        mode_configs: vec![Ok(keyboard_config())],
    }
}

#[test]
fn test_avatar_loader() {
    let loader = AvatarLoader::new();
    assert_eq!(loader.cache_len(), 0);
}

#[test]
fn cold_load_builds_keyboard_mode() {
    let files = keyboard_files("/pack");
    let avatar = Avatar::load_from_file("/pack", keyboard_manifests(), &files).unwrap();
    assert_eq!(avatar.name, "pack");
    let mode = avatar.get_mode("keyboard").expect("keyboard mode");
    let frame = mode
        .left_hand_key_frames
        .iter()
        .find(|(c, _)| *c == 30)
        .map(|(_, img)| img)
        .expect("frame for A");
    assert_eq!(frame.path, "/pack/mode/keyboard/lefthand/a_pose.png");
    assert_eq!((frame.width, frame.height), (2, 2));
    assert_eq!(frame.data, [7u8, 7, 7, 255].repeat(4));
    assert!(mode.key_images.iter().any(|(k, _)| k == "a"));
    assert!(mode.right_hand_key_frames.is_empty());
    assert_eq!(mode.background.as_ref().unwrap().data, [2u8, 2, 2, 255].repeat(4));
    assert_eq!(mode.left_hand.as_ref().unwrap().up_image.path, "/pack/mode/keyboard/lh.png");
    assert!(avatar.get_face_by_key("f1").is_some());
    assert!(avatar.get_face_by_key("f2").is_none());
}

#[test]
fn load_twice_gives_same_avatar() {
    let files = keyboard_files("/pack");
    let a = Avatar::load_from_file("/pack", keyboard_manifests(), &files).unwrap();
    let b = Avatar::load_from_file("/pack", keyboard_manifests(), &files).unwrap();
    let names = |x: &Avatar| x.modes.iter().map(|(n, _)| n.clone()).collect::<Vec<_>>();
    let faces = |x: &Avatar| x.face_images.iter().map(|(n, _)| n.clone()).collect::<Vec<_>>();
    let codes = |x: &Avatar| {
        x.modes
            .iter()
            .map(|(_, m)| m.left_hand_key_frames.iter().map(|(c, _)| *c).collect::<Vec<_>>())
            .collect::<Vec<_>>()
    };
    assert_eq!(names(&a), names(&b));
    assert_eq!(faces(&a), faces(&b));
    assert_eq!(codes(&a), codes(&b));
}

#[test]
fn load_from_config_attaches_settings() {
    let files = keyboard_files("/assets/cat");
    let settings = AvatarSettings {
        default_mode: "keyboard".to_string(),
        default_face: Some("f1".to_string()),
        canvas_width: 1280,
        canvas_height: 768,
        fps: 60,
    };
    let avatar =
        Avatar::load_from_config("/assets/cat/avatar.json", settings, keyboard_manifests(), &files).unwrap();
    assert_eq!(avatar.base_path, "/assets/cat");
    assert_eq!(avatar.config_path, "/assets/cat/avatar.json");
    assert_eq!(avatar.name, "cat");
    assert_eq!(avatar.settings.as_ref().unwrap().fps, 60);
    assert_eq!(avatar.get_default_mode().unwrap().name, "keyboard");
}

#[test]
fn config_path_without_directory_is_invalid() {
    let settings = AvatarSettings {
        default_mode: "keyboard".to_string(),
        default_face: None,
        canvas_width: 1,
        canvas_height: 1,
        fps: 1,
    };
    let r = Avatar::load_from_config("avatar.json", settings, keyboard_manifests(), &AssetFiles::new());
    assert!(matches!(r, Err(LoadError::InvalidConfig(_))));
}

#[test]
fn no_loadable_mode_is_invalid() {
    let manifests = AvatarManifests {
        face: FaceConfig { hot_keys: vec![], face_images: vec![] },
        mode_list: ModeListConfig { model_paths: strings(&["keyboard", "standard"]) },
        mode_configs: vec![Err(LoadError::IoError("gone".to_string()))],
    };
    let r = Avatar::load_from_file("/pack", manifests, &AssetFiles::new());
    assert!(matches!(r, Err(LoadError::InvalidConfig(_))));
}

#[test]
fn failing_mode_is_skipped() {
    let files = keyboard_files("/pack");
    let mut manifests = keyboard_manifests();
    manifests.mode_list.model_paths = strings(&["broken", "keyboard"]);
    manifests.mode_configs = vec![Err(LoadError::JsonError("bad".to_string())), Ok(keyboard_config())];
    let avatar = Avatar::load_from_file("/pack", manifests, &files).unwrap();
    assert_eq!(avatar.available_modes, strings(&["broken", "keyboard"]));
    assert!(avatar.get_mode("broken").is_none());
    assert!(avatar.get_mode("keyboard").is_some());
    // the first listed mode did not load, so there is no default without settings
    assert!(avatar.get_default_mode().is_none());
}

#[test]
fn settings_default_mode_wins() {
    let files = keyboard_files("/pack");
    let mut manifests = keyboard_manifests();
    manifests.mode_list.model_paths = strings(&["keyboard", "other"]);
    manifests.mode_configs = vec![Ok(keyboard_config()), Ok(empty_mode_config())];
    let settings = AvatarSettings {
        default_mode: "other".to_string(),
        default_face: None,
        canvas_width: 1,
        canvas_height: 1,
        fps: 1,
    };
    let avatar = Avatar::load_from_config("/pack/avatar.json", settings, manifests, &files).unwrap();
    assert_eq!(avatar.get_default_mode().unwrap().name, "other");
}

#[test]
fn loader_caches_by_path() {
    let files = keyboard_files("/pack");
    let mut loader = AvatarLoader::new();
    assert_eq!(loader.load("/pack", keyboard_manifests(), &files).unwrap().name, "pack");
    assert_eq!(loader.cache_len(), 1);
    // a cached avatar is returned as it is, whatever the inputs
    let empty = AvatarManifests {
        face: FaceConfig { hot_keys: vec![], face_images: vec![] },
        mode_list: ModeListConfig { model_paths: vec![] },
        mode_configs: vec![],
    };
    assert!(loader.load("/pack", empty, &AssetFiles::new()).is_ok());
    assert_eq!(loader.cache_len(), 1);
    assert!(loader.get("/pack").is_some());
    loader.clear_cache();
    assert_eq!(loader.cache_len(), 0);
    assert!(loader.get("/pack").is_none());
}

#[test]
fn loader_reload_replaces_entry() {
    let files = keyboard_files("/pack");
    let mut loader = AvatarLoader::new();
    loader.load("/pack", keyboard_manifests(), &files).unwrap();
    let mut manifests = keyboard_manifests();
    manifests.mode_list.model_paths = strings(&["keyboard", "second"]);
    manifests.mode_configs = vec![Ok(keyboard_config()), Ok(empty_mode_config())];
    let reloaded = loader.reload("/pack", manifests, &files).unwrap();
    assert_eq!(reloaded.modes.len(), 2);
    assert_eq!(loader.cache_len(), 1);
    let failing = AvatarManifests {
        face: FaceConfig { hot_keys: vec![], face_images: vec![] },
        mode_list: ModeListConfig { model_paths: vec![] },
        mode_configs: vec![],
    };
    assert!(matches!(loader.reload("/pack", failing, &files), Err(LoadError::InvalidConfig(_))));
    assert_eq!(loader.cache_len(), 0);
}

fn legacy_config() -> ModeConfig {
    let mut c = empty_mode_config();
    c.key_bindings = Some(strings(&["space"]));
    c.keys_image_path = Some("keys".to_string());
    c.keys_images = Some(strings(&["space.png"]));
    c.left_hand_image_path = Some("lh".to_string());
    c.left_hand_up_image = Some("up.png".to_string());
    c.left_hand_images = Some(strings(&["down.png"]));
    c
}

fn legacy_files() -> AssetFiles {
    let mut files = AssetFiles::new();
    files.add("m/keys/space.png".to_string(), png(1, 1, [9, 9, 9, 255]));
    files.add("m/lh/up.png".to_string(), png(1, 1, [8, 8, 8, 255]));
    files.add("m/lh/down.png".to_string(), png(1, 1, [7, 7, 7, 255]));
    files
}

#[test]
fn legacy_mode_uses_positional_fields() {
    let mode = LoadedMode::load("m", "legacy", legacy_config(), &legacy_files());
    assert_eq!(mode.key_images.len(), 1);
    assert_eq!(mode.key_images[0].0, "space");
    assert_eq!(mode.key_images[0].1.path, "m/keys/space.png");
    assert_eq!(mode.key_images[0].1.data, vec![9, 9, 9, 255]);
    let hand = mode.left_hand.as_ref().expect("left hand");
    assert_eq!(hand.up_image.path, "m/lh/up.png");
    assert_eq!(hand.frame_images.len(), 1);
    assert_eq!(hand.frame_images[0].path, "m/lh/down.png");
    assert!(mode.right_hand.is_none());
    assert!(mode.left_hand_key_frames.is_empty());
}

#[test]
fn key_mapping_ignores_legacy_fields() {
    let mut files = legacy_files();
    files.add("m/keys/a.png".to_string(), png(1, 1, [1, 2, 3, 255]));
    files.add("m/righthand/a.png".to_string(), png(1, 1, [3, 2, 1, 255]));
    let mut c = legacy_config();
    c.key_mapping = Some(vec![("a".to_string(), strings(&["keys/a.png", "righthand/a.png"]))]);
    let mode = LoadedMode::load("m", "mixed", c, &files);
    assert_eq!(mode.key_images.len(), 1);
    assert_eq!(mode.key_images[0].0, "a");
    assert!(mode.left_hand.is_none());
    assert_eq!(mode.right_hand_key_frames.len(), 1);
    assert_eq!(mode.right_hand_key_frames[0].0, 30);
    assert!(mode.left_hand_key_frames.is_empty());
}

#[test]
fn hand_hints_and_arrows_pick_the_hand() {
    let mut files = AssetFiles::new();
    for p in ["m/p/righthand_x.png", "m/p/plain.png", "m/p/lefthand_up.png", "m/k.png"] {
        files.add(p.to_string(), png(1, 1, [0, 0, 0, 255]));
    }
    let mut c = empty_mode_config();
    c.key_mapping = Some(vec![
        ("z".to_string(), strings(&["k.png", "p/righthand_x.png"])),
        ("up".to_string(), strings(&["k.png", "p/plain.png"])),
        ("down".to_string(), strings(&["k.png", "p/lefthand_up.png"])),
        ("x".to_string(), strings(&["k.png", "p/plain.png"])),
        ("nosuchkey".to_string(), strings(&["k.png", "p/plain.png"])),
        ("short".to_string(), strings(&["k.png"])),
    ]);
    let mode = LoadedMode::load("m", "hands", c, &files);
    let right: Vec<u32> = mode.right_hand_key_frames.iter().map(|(c, _)| *c).collect();
    let left: Vec<u32> = mode.left_hand_key_frames.iter().map(|(c, _)| *c).collect();
    assert_eq!(right, vec![44, 103]);
    assert_eq!(left, vec![108, 45]);
    let caps: Vec<&str> = mode.key_images.iter().map(|(k, _)| k.as_str()).collect();
    assert_eq!(caps, vec!["z", "up", "down", "x", "nosuchkey"]);
}

#[test]
fn mode_without_images_draws_nothing() {
    let mode = LoadedMode::load("m", "blank", keyboard_config(), &AssetFiles::new());
    assert!(mode.background.is_none());
    assert!(mode.cat_background.is_none());
    assert!(mode.left_hand.is_none());
    assert!(mode.right_hand.is_none());
    assert!(mode.key_images.is_empty());
    assert!(select_frame(&mode, None, &vec![30]).is_empty());
    assert!(select_frame(&mode, None, &vec![]).is_empty());
}

#[test]
fn missing_and_broken_images_are_errors() {
    let mut files = AssetFiles::new();
    files.add("bad.png".to_string(), vec![1, 2, 3]);
    files.add("good.png".to_string(), png(3, 2, [10, 20, 30, 40]));
    assert_eq!(files.load_image("none.png").unwrap_err(), LoadError::MissingFile("none.png".to_string()));
    assert!(matches!(files.load_image("bad.png"), Err(LoadError::InvalidConfig(_))));
    let img = files.load_image("good.png").unwrap();
    assert_eq!((img.width, img.height), (3, 2));
    assert_eq!(img.data, [10u8, 20, 30, 40].repeat(6));
}

#[test]
fn hand_without_up_image_is_invalid() {
    let r = LoadedMode::load_hand_data(&legacy_files(), "m", "lh", &None, &None);
    assert!(matches!(r, Err(LoadError::InvalidConfig(_))));
    let r = LoadedMode::load_hand_data(&legacy_files(), "m", "lh", &Some("gone.png".to_string()), &None);
    assert_eq!(r.unwrap_err(), LoadError::MissingFile("m/lh/gone.png".to_string()));
}

fn layers(cmds: &[avatar_plugin::render::DrawCommand]) -> Vec<Layer> {
    cmds.iter().map(|c| c.layer).collect()
}

#[test]
fn frame_without_keys_shows_base_layers() {
    let files = keyboard_files("/pack");
    let avatar = Avatar::load_from_file("/pack", keyboard_manifests(), &files).unwrap();
    let r = render_frame(&avatar, "keyboard", &Some("f1".to_string()), &vec![]);
    assert_eq!(
        layers(&r),
        vec![Layer::Background, Layer::CatBody, Layer::Face, Layer::LeftHand, Layer::RightHand]
    );
    let paths: Vec<&str> = r.iter().map(|c| c.image.path.as_str()).collect();
    assert_eq!(
        paths,
        vec![
            "/pack/mode/keyboard/bg.png",
            "/pack/mode/keyboard/cat.png",
            "/pack/face/0.png",
            "/pack/mode/keyboard/lh.png",
            "/pack/mode/keyboard/rh.png"
        ]
    );
    assert!(r.iter().all(|c| c.x == 0 && c.y == 0));
    assert!(render_frame(&avatar, "standard", &None, &vec![]).is_empty());
}

#[test]
fn held_key_shows_cap_and_pose() {
    let files = keyboard_files("/pack");
    let avatar = Avatar::load_from_file("/pack", keyboard_manifests(), &files).unwrap();
    let r = render_frame(&avatar, "keyboard", &Some("f1".to_string()), &vec![30]);
    let paths: Vec<&str> = r.iter().map(|c| c.image.path.as_str()).collect();
    assert_eq!(
        paths,
        vec![
            "/pack/mode/keyboard/bg.png",
            "/pack/mode/keyboard/cat.png",
            "/pack/face/0.png",
            "/pack/mode/keyboard/keys/a.png",
            "/pack/mode/keyboard/lefthand/a_pose.png",
            "/pack/mode/keyboard/rh.png"
        ]
    );
    assert_eq!(r[3].layer, Layer::KeyCap);
    // a held key without a cap or frame changes nothing
    let r = render_frame(&avatar, "keyboard", &None, &vec![31]);
    assert_eq!(layers(&r), vec![Layer::Background, Layer::CatBody, Layer::LeftHand, Layer::RightHand]);
    assert_eq!(r[2].image.path, "/pack/mode/keyboard/lh.png");
    // with two held keys, the one with a frame drives the hand
    let r = render_frame(&avatar, "keyboard", &None, &vec![31, 30]);
    assert_eq!(r[3].image.path, "/pack/mode/keyboard/lefthand/a_pose.png");
}

fn keyboard_source() -> SourceState {
    let files = keyboard_files("/pack");
    let settings = AvatarSettings {
        default_mode: "keyboard".to_string(),
        default_face: Some("f1".to_string()),
        canvas_width: 1280,
        canvas_height: 768,
        fps: 60,
    };
    let avatar = Avatar::load_from_config("/pack/avatar.json", settings, keyboard_manifests(), &files).unwrap();
    SourceState::new("/pack/avatar.json".to_string(), Some(avatar), None, 1280, 768)
}

#[test]
fn source_renders_default_face_and_pressed_keys() {
    let mut source = keyboard_source();
    assert_eq!(source.current_mode, "keyboard");
    assert_eq!(source.current_face.as_deref(), Some("f1"));
    assert_eq!(source.frame().len(), 5);
    source.tick(&vec![InputEvent::KeyPress(30)]);
    let r = source.frame();
    assert_eq!(r.len(), 6);
    assert_eq!(r[3].image.path, "/pack/mode/keyboard/keys/a.png");
    assert_eq!(r[4].image.path, "/pack/mode/keyboard/lefthand/a_pose.png");
    source.tick(&vec![InputEvent::KeyRelease(30)]);
    assert_eq!(source.frame().len(), 5);
}

#[test]
fn source_switches_faces_by_key() {
    let mut source = keyboard_source();
    source.key_click(27, true);
    assert_eq!(source.current_face, None);
    assert_eq!(source.frame().len(), 4);
    source.key_click(50, true);
    assert_eq!(source.current_face, None);
    source.key_click(49, false);
    assert_eq!(source.current_face, None);
    source.key_click(49, true);
    assert_eq!(source.current_face.as_deref(), Some("f1"));
    // a host key is no held key
    assert!(source.input.pressed().is_empty());
    // f1 is itself a hotkey
    source.key_click(48, true);
    assert_eq!(source.current_face, None);
    source.key_click(112, true);
    assert_eq!(source.current_face.as_deref(), Some("f1"));
}

#[test]
fn source_reloads_on_path_change() {
    let mut source = keyboard_source();
    assert!(!source.path_changed("/pack/avatar.json"));
    assert!(source.path_changed("/other/avatar.json"));
    let files = keyboard_files("/other");
    let mut manifests = keyboard_manifests();
    manifests.face = FaceConfig { hot_keys: vec![], face_images: vec![] };
    let avatar = Avatar::load_from_file("/other", manifests, &files).unwrap();
    source.replace_avatar("/other/avatar.json".to_string(), Some(avatar));
    assert_eq!(source.avatar_path, "/other/avatar.json");
    assert_eq!(source.avatar.as_ref().unwrap().base_path, "/other");
    assert_eq!(source.current_face, None);
    let r = source.frame();
    assert_eq!(r[0].image.path, "/other/mode/keyboard/bg.png");
    assert_eq!(r.len(), 4);
    source.replace_avatar("/gone".to_string(), None);
    assert!(source.frame().is_empty());
}

#[test]
fn pose_classes_follow_hints() {
    assert_eq!(classify_hand("righthand/a.png", 30), Hand::Right);
    assert_eq!(classify_hand("p/lefthand.png", 103), Hand::Left);
    assert_eq!(classify_hand("pose.png", 105), Hand::Right);
    assert_eq!(classify_hand("pose.png", 30), Hand::Left);
    assert_eq!(classify_hand("righthand_lefthand.png", 30), Hand::Right);
}

#[test]
fn repeated_keys_keep_the_later_entry() {
    let mut files = AssetFiles::new();
    files.add("/p/face/a.png".to_string(), png(1, 1, [1, 0, 0, 255]));
    files.add("/p/face/b.png".to_string(), png(1, 1, [2, 0, 0, 255]));
    files.add("/p/mode/k/one.png".to_string(), png(1, 1, [3, 0, 0, 255]));
    files.add("/p/mode/k/two.png".to_string(), png(1, 1, [4, 0, 0, 255]));
    let mut c = empty_mode_config();
    c.key_mapping = Some(vec![
        ("a".to_string(), strings(&["one.png", "one.png"])),
        ("30".to_string(), strings(&["two.png", "two.png"])),
    ]);
    let manifests = AvatarManifests {
        face: FaceConfig { hot_keys: strings(&["f1", "f1", "f2"]), face_images: strings(&["a.png", "b.png"]) },
        mode_list: ModeListConfig { model_paths: strings(&["k"]) },
        mode_configs: vec![Ok(c)],
    };
    let avatar = Avatar::load_from_file("/p", manifests, &files).unwrap();
    assert_eq!(avatar.face_images.len(), 1);
    assert_eq!(avatar.get_face_by_key("f1").unwrap().path, "/p/face/b.png");
    let mode = avatar.get_mode("k").unwrap();
    assert_eq!(mode.key_images.len(), 2);
    assert_eq!(mode.left_hand_key_frames.len(), 1);
    assert_eq!(mode.left_hand_key_frames[0].0, 30);
    assert_eq!(mode.left_hand_key_frames[0].1.path, "/p/mode/k/two.png");
}

#[test]
fn later_file_contents_win() {
    let mut files = AssetFiles::new();
    files.add("x.png".to_string(), vec![0]);
    files.add("x.png".to_string(), png(1, 1, [5, 6, 7, 8]));
    assert_eq!(files.get("x.png").map(|b| b.len() > 1), Some(true));
    assert_eq!(files.load_image("x.png").unwrap().data, vec![5, 6, 7, 8]);
    assert!(files.get("y.png").is_none());
}
