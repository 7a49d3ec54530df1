//! Loading one mode of an avatar: its layers, key caps and hand frames.
use vstd::prelude::*;

use crate::asset::{image_at, image_view_wf, joined, join_path, AssetFiles, ImageData, ImageView};
use crate::config::ModeConfig;
use crate::error::LoadError;
use crate::keys::{classify_hand, hand_for, key_code_for_name, key_code_of, Hand};
use crate::table::{all_values, coded_view, lemma_put_entry_all, named_view, put_coded, put_entry, put_named};

verus! {

/// A hand: its resting image and, in the legacy form, its positional frames.
#[derive(Debug, Clone)]
pub struct HandData {
    pub up_image: ImageData,
    pub frame_images: Vec<ImageData>,
}

pub struct HandView {
    pub up: ImageView,
    pub frames: Seq<ImageView>,
}

impl View for HandData {
    type V = HandView;

    open spec fn view(&self) -> HandView {
        HandView { up: self.up_image@, frames: self.frame_images@.map_values(|i: ImageData| i@) }
    }
}

/// What a loaded mode shows: its layers, its key caps by key name, and the
/// pose frame of each hand by key code.
pub struct ModeView {
    pub background: Option<ImageView>,
    pub cat_background: Option<ImageView>,
    pub left_hand: Option<HandView>,
    pub right_hand: Option<HandView>,
    pub key_images: Seq<(Seq<char>, ImageView)>,
    pub left_frames: Seq<(u32, ImageView)>,
    pub right_frames: Seq<(u32, ImageView)>,
}

/// A mode of an avatar with all of its images decoded.
#[derive(Debug)]
pub struct LoadedMode {
    pub name: String,
    pub config: ModeConfig,
    pub base_path: String,
    pub background: Option<ImageData>,
    pub cat_background: Option<ImageData>,
    pub left_hand: Option<HandData>,
    pub right_hand: Option<HandData>,
    /// Key name to key-cap image.
    pub key_images: Vec<(String, ImageData)>,
    /// Key code to the left hand's pose while that key is held.
    pub left_hand_key_frames: Vec<(u32, ImageData)>,
    /// Key code to the right hand's pose while that key is held.
    pub right_hand_key_frames: Vec<(u32, ImageData)>,
    pub face_images: Vec<ImageData>,
}

pub open spec fn image_opt_view(o: Option<ImageData>) -> Option<ImageView> {
    match o {
        Some(i) => Some(i@),
        None => None,
    }
}

pub open spec fn hand_opt_view(o: Option<HandData>) -> Option<HandView> {
    match o {
        Some(h) => Some(h@),
        None => None,
    }
}

impl View for LoadedMode {
    type V = ModeView;

    open spec fn view(&self) -> ModeView {
        ModeView {
            background: image_opt_view(self.background),
            cat_background: image_opt_view(self.cat_background),
            left_hand: hand_opt_view(self.left_hand),
            right_hand: hand_opt_view(self.right_hand),
            key_images: named_view(self.key_images@),
            left_frames: coded_view(self.left_hand_key_frames@),
            right_frames: coded_view(self.right_hand_key_frames@),
        }
    }
}

/// The three tables that a key mapping fills.
pub struct KeyTables {
    pub key_images: Seq<(Seq<char>, ImageView)>,
    pub left: Seq<(u32, ImageView)>,
    pub right: Seq<(u32, ImageView)>,
}

pub open spec fn no_tables() -> KeyTables {
    KeyTables { key_images: Seq::empty(), left: Seq::empty(), right: Seq::empty() }
}

/// One key-mapping entry: its cap image goes under the key name, and its
/// pose image under the key's code, on the hand that `hand_for` picks.
pub open spec fn mapping_step(
    files: Seq<(Seq<char>, Seq<u8>)>,
    dir: Seq<char>,
    t: KeyTables,
    name: Seq<char>,
    paths: Seq<String>,
) -> KeyTables {
    if paths.len() < 2 {
        t
    } else {
        let keys = match image_at(files, joined(dir, paths[0]@)) {
            Some(img) => put_entry(t.key_images, name, img),
            None => t.key_images,
        };
        match (image_at(files, joined(dir, paths[1]@)), key_code_of(name)) {
            (Some(pose), Some(code)) => if hand_for(paths[1]@, code) == Hand::Right {
                KeyTables { key_images: keys, left: t.left, right: put_entry(t.right, code, pose) }
            } else {
                KeyTables { key_images: keys, left: put_entry(t.left, code, pose), right: t.right }
            },
            _ => KeyTables { key_images: keys, left: t.left, right: t.right },
        }
    }
}

/// The tables that the entries of a key mapping fill, taken in order.
pub open spec fn mapping_tables(
    files: Seq<(Seq<char>, Seq<u8>)>,
    dir: Seq<char>,
    m: Seq<(String, Vec<String>)>,
) -> KeyTables
    decreases m.len(),
{
    if m.len() == 0 {
        no_tables()
    } else {
        mapping_step(files, dir, mapping_tables(files, dir, m.drop_last()), m.last().0@, m.last().1@)
    }
}

/// A layer image named relative to the mode directory; an empty name is no layer.
pub open spec fn optional_image(
    files: Seq<(Seq<char>, Seq<u8>)>,
    dir: Seq<char>,
    name: Seq<char>,
) -> Option<ImageView> {
    if name.len() == 0 {
        None
    } else {
        image_at(files, joined(dir, name))
    }
}

/// A hand given by its resting image alone, relative to the mode directory.
pub open spec fn up_hand(
    files: Seq<(Seq<char>, Seq<u8>)>,
    dir: Seq<char>,
    up: Option<String>,
) -> Option<HandView> {
    match up {
        Some(p) => if p@.len() > 0 {
            match image_at(files, joined(dir, p@)) {
                Some(img) => Some(HandView { up: img, frames: Seq::empty() }),
                None => None,
            }
        } else {
            None
        },
        None => None,
    }
}

/// The frames among `names` (relative to `dir`) that decode, in order.
pub open spec fn frame_list(
    files: Seq<(Seq<char>, Seq<u8>)>,
    dir: Seq<char>,
    names: Seq<String>,
) -> Seq<ImageView>
    decreases names.len(),
{
    if names.len() == 0 {
        Seq::empty()
    } else {
        let prev = frame_list(files, dir, names.drop_last());
        match image_at(files, joined(dir, names.last()@)) {
            Some(img) => prev.push(img),
            None => prev,
        }
    }
}

/// A legacy hand: a directory holding its resting image and its frames.
/// It exists where the resting image is named and decodes.
pub open spec fn hand_data_model(
    files: Seq<(Seq<char>, Seq<u8>)>,
    dir: Seq<char>,
    hand_path: Seq<char>,
    up: Option<String>,
    frames: Option<Vec<String>>,
) -> Option<HandView> {
    let hand_dir = joined(dir, hand_path);
    match up {
        Some(u) => match image_at(files, joined(hand_dir, u@)) {
            Some(img) => Some(HandView {
                up: img,
                frames: match frames {
                    Some(names) => frame_list(files, hand_dir, names@),
                    None => Seq::empty(),
                },
            }),
            None => None,
        },
        None => None,
    }
}

/// A hand after the legacy fields are read: a non-empty hand directory
/// replaces what the resting image alone gave.
pub open spec fn legacy_hand(
    files: Seq<(Seq<char>, Seq<u8>)>,
    dir: Seq<char>,
    hand_path: Option<String>,
    up: Option<String>,
    frames: Option<Vec<String>>,
    current: Option<HandView>,
) -> Option<HandView> {
    match hand_path {
        Some(hp) => if hp@.len() > 0 {
            hand_data_model(files, dir, hp@, up, frames)
        } else {
            current
        },
        None => current,
    }
}

/// The key caps of the first `n` legacy bindings: binding `i` takes the
/// `i`-th image name of the keys directory.
pub open spec fn legacy_keys_upto(
    files: Seq<(Seq<char>, Seq<u8>)>,
    keys_dir: Seq<char>,
    names: Seq<String>,
    bindings: Seq<String>,
    n: int,
) -> Seq<(Seq<char>, ImageView)>
    decreases n,
{
    if n <= 0 {
        Seq::empty()
    } else {
        let prev = legacy_keys_upto(files, keys_dir, names, bindings, n - 1);
        let i = n - 1;
        if i < names.len() && names[i]@.len() > 0 {
            match image_at(files, joined(keys_dir, names[i]@)) {
                Some(img) => put_entry(prev, bindings[i]@, img),
                None => prev,
            }
        } else {
            prev
        }
    }
}

/// The key caps of the legacy form.
pub open spec fn legacy_key_images(
    files: Seq<(Seq<char>, Seq<u8>)>,
    dir: Seq<char>,
    config: ModeConfig,
) -> Seq<(Seq<char>, ImageView)> {
    match (config.keys_image_path, config.keys_images, config.key_bindings) {
        (Some(kp), Some(names), Some(bindings)) => if kp@.len() > 0 {
            legacy_keys_upto(files, joined(dir, kp@), names@, bindings@, bindings@.len() as int)
        } else {
            Seq::empty()
        },
        _ => Seq::empty(),
    }
}

/// What loading the mode in directory `dir` with manifest `config` gives.
pub open spec fn mode_model(
    files: Seq<(Seq<char>, Seq<u8>)>,
    dir: Seq<char>,
    config: ModeConfig,
) -> ModeView {
    let background = optional_image(files, dir, config.background_image@);
    let cat_background = optional_image(files, dir, config.cat_background_image@);
    let left = up_hand(files, dir, config.left_hand_up_image);
    let right = up_hand(files, dir, config.right_hand_up_image);
    match config.key_mapping {
        Some(m) => {
            let t = mapping_tables(files, dir, m@);
            ModeView {
                background,
                cat_background,
                left_hand: left,
                right_hand: right,
                key_images: t.key_images,
                left_frames: t.left,
                right_frames: t.right,
            }
        },
        None => ModeView {
            background,
            cat_background,
            left_hand: legacy_hand(
                files,
                dir,
                config.left_hand_image_path,
                config.left_hand_up_image,
                config.left_hand_images,
                left,
            ),
            right_hand: legacy_hand(
                files,
                dir,
                config.right_hand_image_path,
                config.right_hand_up_image,
                config.right_hand_images,
                right,
            ),
            key_images: legacy_key_images(files, dir, config),
            left_frames: Seq::empty(),
            right_frames: Seq::empty(),
        },
    }
}

/// Every image of a hand holds four bytes per pixel.
pub open spec fn hand_view_wf(h: HandView) -> bool {
    &&& image_view_wf(h.up)
    &&& forall|i: int| 0 <= i < h.frames.len() ==> image_view_wf(#[trigger] h.frames[i])
}

pub open spec fn opt_hand_wf(h: Option<HandView>) -> bool {
    h matches Some(x) ==> hand_view_wf(x)
}

pub open spec fn opt_image_wf(i: Option<ImageView>) -> bool {
    i matches Some(x) ==> image_view_wf(x)
}

/// Every image of the key tables holds four bytes per pixel.
pub open spec fn tables_wf(t: KeyTables) -> bool {
    &&& all_values(t.key_images, |i: ImageView| image_view_wf(i))
    &&& all_values(t.left, |i: ImageView| image_view_wf(i))
    &&& all_values(t.right, |i: ImageView| image_view_wf(i))
}

/// Every image of a mode holds four bytes per pixel.
pub open spec fn mode_view_wf(m: ModeView) -> bool {
    &&& opt_image_wf(m.background)
    &&& opt_image_wf(m.cat_background)
    &&& opt_hand_wf(m.left_hand)
    &&& opt_hand_wf(m.right_hand)
    &&& tables_wf(KeyTables { key_images: m.key_images, left: m.left_frames, right: m.right_frames })
}

impl LoadedMode {
    pub open spec fn wf(&self) -> bool {
        mode_view_wf(self@)
    }
}

pub open spec fn tables_of(
    key_images: Seq<(String, ImageData)>,
    left: Seq<(u32, ImageData)>,
    right: Seq<(u32, ImageData)>,
) -> KeyTables {
    KeyTables { key_images: named_view(key_images), left: coded_view(left), right: coded_view(right) }
}

/// Puts one key-mapping entry into the three tables.
fn apply_mapping_entry(
    files: &AssetFiles,
    dir: &str,
    key_images: &mut Vec<(String, ImageData)>,
    left: &mut Vec<(u32, ImageData)>,
    right: &mut Vec<(u32, ImageData)>,
    name: &String,
    paths: &Vec<String>,
)
    requires
        tables_wf(tables_of(old(key_images)@, old(left)@, old(right)@)),
    ensures
        tables_wf(tables_of(final(key_images)@, final(left)@, final(right)@)),
        tables_of(final(key_images)@, final(left)@, final(right)@) == mapping_step(
            files@,
            dir@,
            tables_of(old(key_images)@, old(left)@, old(right)@),
            name@,
            paths@,
        ),
{
    if paths.len() >= 2 {
        let cap_path = join_path(dir, paths[0].as_str());
        match files.load_image(cap_path.as_str()) {
            Ok(img) => {
                proof {
                    lemma_put_entry_all(named_view(key_images@), name@, img@, |i: ImageView| image_view_wf(i));
                }
                put_named(key_images, name.clone(), img);
            },
            Err(_) => {},
        }
        let pose_path = join_path(dir, paths[1].as_str());
        match files.load_image(pose_path.as_str()) {
            Ok(pose) => match key_code_for_name(name.as_str()) {
                Some(code) => match classify_hand(paths[1].as_str(), code) {
                    Hand::Right => {
                        proof {
                            lemma_put_entry_all(coded_view(right@), code, pose@, |i: ImageView| image_view_wf(i));
                        }
                        put_coded(right, code, pose);
                    },
                    Hand::Left => {
                        proof {
                            lemma_put_entry_all(coded_view(left@), code, pose@, |i: ImageView| image_view_wf(i));
                        }
                        put_coded(left, code, pose);
                    },
                },
                None => {},
            },
            Err(_) => {},
        }
    }
}

/// Fills the key tables from the entries of a key mapping, in order.
fn load_key_mapping(files: &AssetFiles, dir: &str, m: &Vec<(String, Vec<String>)>) -> (r: (
    Vec<(String, ImageData)>,
    Vec<(u32, ImageData)>,
    Vec<(u32, ImageData)>,
))
    ensures
        tables_of(r.0@, r.1@, r.2@) == mapping_tables(files@, dir@, m@),
        tables_wf(tables_of(r.0@, r.1@, r.2@)),
{
    let mut key_images: Vec<(String, ImageData)> = Vec::new();
    let mut left: Vec<(u32, ImageData)> = Vec::new();
    let mut right: Vec<(u32, ImageData)> = Vec::new();
    assert(tables_of(key_images@, left@, right@) == no_tables()) by {
        assert(named_view(key_images@) =~= Seq::<(Seq<char>, ImageView)>::empty());
        assert(coded_view(left@) =~= Seq::<(u32, ImageView)>::empty());
        assert(coded_view(right@) =~= Seq::<(u32, ImageView)>::empty());
    }
    assert(m@.subrange(0, 0) =~= Seq::<(String, Vec<String>)>::empty());
    let mut i: usize = 0;
    while i < m.len()
        invariant
            i <= m@.len(),
            tables_of(key_images@, left@, right@) == mapping_tables(files@, dir@, m@.subrange(0, i as int)),
            tables_wf(tables_of(key_images@, left@, right@)),
        decreases m@.len() - i,
    {
        let entry = &m[i];
        apply_mapping_entry(files, dir, &mut key_images, &mut left, &mut right, &entry.0, &entry.1);
        assert(m@.subrange(0, i + 1).drop_last() =~= m@.subrange(0, i as int));
        i = i + 1;
    }
    assert(m@.subrange(0, m@.len() as int) =~= m@);
    (key_images, left, right)
}

impl LoadedMode {
    /// Loads the mode in directory `mode_path` described by `config`, reading
    /// images from `files`. An image that is missing or does not decode
    /// leaves its layer, cap or frame out; the mode itself always loads.
    pub fn load(mode_path: &str, mode_name: &str, config: ModeConfig, files: &AssetFiles) -> (r: LoadedMode)
        ensures
            r@ == mode_model(files@, mode_path@, config),
            r.name@ == mode_name@,
            r.base_path@ == mode_path@,
            r.config == config,
            r.face_images@.len() == 0,
            r.wf(),
    {
        let background = Self::load_optional_image(files, mode_path, config.background_image.as_str());
        let cat_background = Self::load_optional_image(files, mode_path, config.cat_background_image.as_str());
        let left_hand = Self::load_up_hand(files, mode_path, &config.left_hand_up_image);
        let right_hand = Self::load_up_hand(files, mode_path, &config.right_hand_up_image);
        let (left_hand, right_hand, key_images, left_frames, right_frames) = match &config.key_mapping {
            Some(m) => {
                let (k, l, r) = load_key_mapping(files, mode_path, m);
                (left_hand, right_hand, k, l, r)
            },
            None => {
                let (l, r, k) = Self::load_legacy_keys(files, mode_path, &config, left_hand, right_hand);
                let no_left: Vec<(u32, ImageData)> = Vec::new();
                assert(tables_wf(tables_of(k@, no_left@, no_left@)));
                let no_right: Vec<(u32, ImageData)> = Vec::new();
                assert(coded_view(no_left@) =~= Seq::<(u32, ImageView)>::empty());
                assert(coded_view(no_right@) =~= Seq::<(u32, ImageView)>::empty());
                (l, r, k, no_left, no_right)
            },
        };
        LoadedMode {
            name: mode_name.to_string(),
            config,
            base_path: mode_path.to_string(),
            background,
            cat_background,
            left_hand,
            right_hand,
            key_images,
            left_hand_key_frames: left_frames,
            right_hand_key_frames: right_frames,
            face_images: Vec::new(),
        }
    }

    /// The hand that a resting image alone gives, relative to the mode directory.
    fn load_up_hand(files: &AssetFiles, mode_path: &str, up: &Option<String>) -> (r: Option<HandData>)
        ensures
            hand_opt_view(r) == up_hand(files@, mode_path@, *up),
            opt_hand_wf(hand_opt_view(r)),
    {
        match up {
            Some(p) => {
                if p.as_str().unicode_len() > 0 {
                    let path = join_path(mode_path, p.as_str());
                    match files.load_image(path.as_str()) {
                        Ok(up_image) => {
                            let frame_images: Vec<ImageData> = Vec::new();
                            let h = HandData { up_image, frame_images };
                            assert(h@.frames =~= Seq::<ImageView>::empty());
                            Some(h)
                        },
                        Err(_) => None,
                    }
                } else {
                    None
                }
            },
            None => None,
        }
    }

    /// The hands and key caps of the legacy form.
    fn load_legacy_keys(
        files: &AssetFiles,
        mode_path: &str,
        config: &ModeConfig,
        left: Option<HandData>,
        right: Option<HandData>,
    ) -> (r: (Option<HandData>, Option<HandData>, Vec<(String, ImageData)>))
        requires
            opt_hand_wf(hand_opt_view(left)),
            opt_hand_wf(hand_opt_view(right)),
        ensures
            opt_hand_wf(hand_opt_view(r.0)),
            opt_hand_wf(hand_opt_view(r.1)),
            all_values(named_view(r.2@), |i: ImageView| image_view_wf(i)),
            hand_opt_view(r.0) == legacy_hand(
                files@,
                mode_path@,
                config.left_hand_image_path,
                config.left_hand_up_image,
                config.left_hand_images,
                hand_opt_view(left),
            ),
            hand_opt_view(r.1) == legacy_hand(
                files@,
                mode_path@,
                config.right_hand_image_path,
                config.right_hand_up_image,
                config.right_hand_images,
                hand_opt_view(right),
            ),
            named_view(r.2@) == legacy_key_images(files@, mode_path@, *config),
    {
        let left = Self::load_legacy_hand(
            files,
            mode_path,
            &config.left_hand_image_path,
            &config.left_hand_up_image,
            &config.left_hand_images,
            left,
        );
        let right = Self::load_legacy_hand(
            files,
            mode_path,
            &config.right_hand_image_path,
            &config.right_hand_up_image,
            &config.right_hand_images,
            right,
        );
        let mut key_images: Vec<(String, ImageData)> = Vec::new();
        assert(named_view(key_images@) =~= Seq::<(Seq<char>, ImageView)>::empty());
        match (&config.keys_image_path, &config.keys_images, &config.key_bindings) {
            (Some(key_path), Some(names), Some(bindings)) => {
                if key_path.as_str().unicode_len() > 0 {
                    let keys_dir = join_path(mode_path, key_path.as_str());
                    let mut i: usize = 0;
                    while i < bindings.len()
                        invariant
                            i <= bindings@.len(),
                            named_view(key_images@) == legacy_keys_upto(
                                files@,
                                keys_dir@,
                                names@,
                                bindings@,
                                i as int,
                            ),
                            all_values(named_view(key_images@), |i: ImageView| image_view_wf(i)),
                        decreases bindings@.len() - i,
                    {
                        if i < names.len() && names[i].as_str().unicode_len() > 0 {
                            let img_path = join_path(keys_dir.as_str(), names[i].as_str());
                            match files.load_image(img_path.as_str()) {
                                Ok(img) => {
                                    proof {
                                        lemma_put_entry_all(
                                            named_view(key_images@),
                                            bindings@[i as int]@,
                                            img@,
                                            |i: ImageView| image_view_wf(i),
                                        );
                                    }
                                    put_named(&mut key_images, bindings[i].clone(), img);
                                },
                                Err(_) => {},
                            }
                        }
                        i = i + 1;
                    }
                }
            },
            _ => {},
        }
        (left, right, key_images)
    }

    fn load_legacy_hand(
        files: &AssetFiles,
        mode_path: &str,
        hand_path: &Option<String>,
        up: &Option<String>,
        frames: &Option<Vec<String>>,
        current: Option<HandData>,
    ) -> (r: Option<HandData>)
        requires
            opt_hand_wf(hand_opt_view(current)),
        ensures
            opt_hand_wf(hand_opt_view(r)),
            hand_opt_view(r) == legacy_hand(files@, mode_path@, *hand_path, *up, *frames, hand_opt_view(current)),
    {
        match hand_path {
            Some(path) => {
                if path.as_str().unicode_len() > 0 {
                    match Self::load_hand_data(files, mode_path, path.as_str(), up, frames) {
                        Ok(h) => Some(h),
                        Err(_) => None,
                    }
                } else {
                    current
                }
            },
            None => current,
        }
    }

    /// A layer image relative to the mode directory; an empty name is no layer.
    fn load_optional_image(files: &AssetFiles, base_path: &str, name: &str) -> (r: Option<ImageData>)
        ensures
            image_opt_view(r) == optional_image(files@, base_path@, name@),
            r matches Some(img) ==> img.wf(),
    {
        if name.unicode_len() == 0 {
            return None;
        }
        let path = join_path(base_path, name);
        match files.load_image(path.as_str()) {
            Ok(img) => Some(img),
            Err(_) => None,
        }
    }

    /// Loads a legacy hand from its directory: the resting image is needed,
    /// frames that are missing or do not decode are left out.
    pub fn load_hand_data(
        files: &AssetFiles,
        base_path: &str,
        hand_path: &str,
        up_image_name: &Option<String>,
        frame_names: &Option<Vec<String>>,
    ) -> (r: Result<HandData, LoadError>)
        ensures
            match r {
                Ok(h) => hand_data_model(files@, base_path@, hand_path@, *up_image_name, *frame_names) == Some(h@)
                    && hand_view_wf(h@),
                Err(e) => hand_data_model(files@, base_path@, hand_path@, *up_image_name, *frame_names) is None
                    && (up_image_name is None ==> e is InvalidConfig),
            },
    {
        let hand_dir = join_path(base_path, hand_path);
        let up_image = match up_image_name {
            Some(name) => {
                let up_path = join_path(hand_dir.as_str(), name.as_str());
                match files.load_image(up_path.as_str()) {
                    Ok(img) => img,
                    Err(e) => {
                        return Err(e);
                    },
                }
            },
            None => {
                return Err(LoadError::InvalidConfig("Missing up image for hand".to_string()));
            },
        };
        let mut frame_images: Vec<ImageData> = Vec::new();
        match frame_names {
            Some(names) => {
                assert(frame_images@.map_values(|i: ImageData| i@) =~= frame_list(
                    files@,
                    hand_dir@,
                    names@.subrange(0, 0),
                ));
                let mut i: usize = 0;
                while i < names.len()
                    invariant
                        i <= names@.len(),
                        frame_images@.map_values(|i: ImageData| i@) == frame_list(
                            files@,
                            hand_dir@,
                            names@.subrange(0, i as int),
                        ),
                        forall|j: int| 0 <= j < frame_images@.len() ==> (#[trigger] frame_images@[j]).wf(),
                    decreases names@.len() - i,
                {
                    let path = join_path(hand_dir.as_str(), names[i].as_str());
                    let ghost before = frame_images@;
                    assert(names@.subrange(0, i + 1).drop_last() =~= names@.subrange(0, i as int));
                    match files.load_image(path.as_str()) {
                        Ok(img) => {
                            let ghost v = img@;
                            frame_images.push(img);
                            assert(frame_images@.map_values(|i: ImageData| i@) =~= before.map_values(
                                |i: ImageData| i@,
                            ).push(v));
                        },
                        Err(_) => {},
                    }
                    i = i + 1;
                }
                assert(names@.subrange(0, names@.len() as int) =~= names@);
            },
            None => {
                assert(frame_images@.map_values(|i: ImageData| i@) =~= Seq::<ImageView>::empty());
            },
        }
        Ok(HandData { up_image, frame_images })
    }
}

/// A key-mapping entry whose pose path has a `righthand` hint puts its
/// pose on the right hand and leaves the left hand's frames alone.
pub proof fn law_right_hand_hint(
    files: Seq<(Seq<char>, Seq<u8>)>,
    dir: Seq<char>,
    t: KeyTables,
    name: Seq<char>,
    paths: Seq<String>,
)
    requires
        paths.len() >= 2,
        crate::keys::text_contains(paths[1]@, "righthand"@),
        image_at(files, joined(dir, paths[1]@)) is Some,
        key_code_of(name) is Some,
    ensures
        mapping_step(files, dir, t, name, paths).right == put_entry(
            t.right,
            key_code_of(name)->Some_0,
            image_at(files, joined(dir, paths[1]@))->Some_0,
        ),
        mapping_step(files, dir, t, name, paths).left == t.left,
{
}

/// The fields that a mode in the key-mapping form reads.
pub open spec fn same_key_mapping_fields(a: ModeConfig, b: ModeConfig) -> bool {
    &&& a.background_image == b.background_image
    &&& a.cat_background_image == b.cat_background_image
    &&& a.left_hand_up_image == b.left_hand_up_image
    &&& a.right_hand_up_image == b.right_hand_up_image
    &&& a.key_mapping == b.key_mapping
}

/// With a key mapping, the legacy fields are not read: two manifests that
/// differ only there load the same mode.
pub proof fn law_key_mapping_ignores_legacy(
    files: Seq<(Seq<char>, Seq<u8>)>,
    dir: Seq<char>,
    a: ModeConfig,
    b: ModeConfig,
)
    requires
        a.key_mapping is Some,
        same_key_mapping_fields(a, b),
    ensures
        mode_model(files, dir, a) == mode_model(files, dir, b),
{
}

/// Without a key mapping, the legacy fields give the key caps and the hands,
/// and no key has a hand frame.
pub proof fn law_legacy_fields_read(files: Seq<(Seq<char>, Seq<u8>)>, dir: Seq<char>, c: ModeConfig)
    requires
        c.key_mapping is None,
    ensures
        mode_model(files, dir, c).key_images == legacy_key_images(files, dir, c),
        mode_model(files, dir, c).left_hand == legacy_hand(
            files,
            dir,
            c.left_hand_image_path,
            c.left_hand_up_image,
            c.left_hand_images,
            up_hand(files, dir, c.left_hand_up_image),
        ),
        mode_model(files, dir, c).right_hand == legacy_hand(
            files,
            dir,
            c.right_hand_image_path,
            c.right_hand_up_image,
            c.right_hand_images,
            up_hand(files, dir, c.right_hand_up_image),
        ),
        mode_model(files, dir, c).left_frames.len() == 0,
        mode_model(files, dir, c).right_frames.len() == 0,
{
}

/// No file decodes to an image.
pub open spec fn no_images(files: Seq<(Seq<char>, Seq<u8>)>) -> bool {
    forall|p: Seq<char>| #[trigger] image_at(files, p) is None
}

proof fn lemma_mapping_without_images(
    files: Seq<(Seq<char>, Seq<u8>)>,
    dir: Seq<char>,
    m: Seq<(String, Vec<String>)>,
)
    requires
        no_images(files),
    ensures
        mapping_tables(files, dir, m) == no_tables(),
    decreases m.len(),
{
    if m.len() > 0 {
        lemma_mapping_without_images(files, dir, m.drop_last());
        let paths = m.last().1@;
        if paths.len() >= 2 {
            assert(image_at(files, joined(dir, paths[0]@)) is None);
            assert(image_at(files, joined(dir, paths[1]@)) is None);
        }
    }
}

proof fn lemma_legacy_keys_without_images(
    files: Seq<(Seq<char>, Seq<u8>)>,
    keys_dir: Seq<char>,
    names: Seq<String>,
    bindings: Seq<String>,
    n: int,
)
    requires
        no_images(files),
    ensures
        legacy_keys_upto(files, keys_dir, names, bindings, n).len() == 0,
    decreases n,
{
    if n > 0 {
        lemma_legacy_keys_without_images(files, keys_dir, names, bindings, n - 1);
        if n - 1 < names.len() {
            assert(image_at(files, joined(keys_dir, names[n - 1]@)) is None);
        }
    }
}

/// Where no image decodes, a mode still loads, with no layer, no key cap
/// and no hand frame.
pub proof fn law_mode_without_images(files: Seq<(Seq<char>, Seq<u8>)>, dir: Seq<char>, c: ModeConfig)
    requires
        no_images(files),
    ensures
        mode_model(files, dir, c).background is None,
        mode_model(files, dir, c).cat_background is None,
        mode_model(files, dir, c).left_hand is None,
        mode_model(files, dir, c).right_hand is None,
        mode_model(files, dir, c).key_images.len() == 0,
        mode_model(files, dir, c).left_frames.len() == 0,
        mode_model(files, dir, c).right_frames.len() == 0,
{
    assert(image_at(files, joined(dir, c.background_image@)) is None);
    assert(image_at(files, joined(dir, c.cat_background_image@)) is None);
    if let Some(p) = c.left_hand_up_image {
        assert(image_at(files, joined(dir, p@)) is None);
    }
    if let Some(p) = c.right_hand_up_image {
        assert(image_at(files, joined(dir, p@)) is None);
    }
    match c.key_mapping {
        Some(m) => lemma_mapping_without_images(files, dir, m@),
        None => {
            if let Some(hp) = c.left_hand_image_path {
                if let Some(u) = c.left_hand_up_image {
                    assert(image_at(files, joined(joined(dir, hp@), u@)) is None);
                }
            }
            if let Some(hp) = c.right_hand_image_path {
                if let Some(u) = c.right_hand_up_image {
                    assert(image_at(files, joined(joined(dir, hp@), u@)) is None);
                }
            }
            match (c.keys_image_path, c.keys_images, c.key_bindings) {
                (Some(kp), Some(names), Some(bindings)) => {
                    lemma_legacy_keys_without_images(
                        files,
                        joined(dir, kp@),
                        names@,
                        bindings@,
                        bindings@.len() as int,
                    );
                },
                _ => {},
            }
        },
    }
}

} // verus!
