//! An avatar: its faces, its modes and its settings, and a cache of loaded
//! avatars keyed by their root directory.
use vstd::prelude::*;

use crate::asset::{image_at, image_view_wf, joined, join_path, AssetFiles, ImageData, ImageView};
use crate::config::{AvatarSettings, FaceConfig, ModeConfig, ModeListConfig};
use crate::error::LoadError;
use crate::mode::{mode_model, mode_view_wf, LoadedMode, ModeView};
use crate::table::{
    all_values, find_named, key_index, key_lookup, lemma_put_entry_all, named_view, put_entry, put_named,
};

verus! {

/// The manifests of an asset pack, parsed: the face list, the mode list, and
/// the manifest of each listed mode by position (or why it could not be had).
pub struct AvatarManifests {
    pub face: FaceConfig,
    pub mode_list: ModeListConfig,
    pub mode_configs: Vec<Result<ModeConfig, LoadError>>,
}

/// A complete avatar with its faces and the modes that loaded.
#[derive(Debug)]
pub struct Avatar {
    pub name: String,
    pub base_path: String,
    pub config_path: String,
    pub face_config: FaceConfig,
    /// Face hotkey to face image.
    pub face_images: Vec<(String, ImageData)>,
    /// The mode names of the mode list, in order.
    pub available_modes: Vec<String>,
    /// Mode name to loaded mode.
    pub modes: Vec<(String, LoadedMode)>,
    pub settings: Option<AvatarSettings>,
}

pub struct AvatarView {
    pub name: Seq<char>,
    pub base_path: Seq<char>,
    pub config_path: Seq<char>,
    pub faces: Seq<(Seq<char>, ImageView)>,
    pub available_modes: Seq<Seq<char>>,
    pub modes: Seq<(Seq<char>, ModeView)>,
    pub settings: Option<AvatarSettings>,
}

impl View for Avatar {
    type V = AvatarView;

    open spec fn view(&self) -> AvatarView {
        AvatarView {
            name: self.name@,
            base_path: self.base_path@,
            config_path: self.config_path@,
            faces: named_view(self.face_images@),
            available_modes: self.available_modes@.map_values(|s: String| s@),
            modes: named_view(self.modes@),
            settings: self.settings,
        }
    }
}

impl Avatar {
    /// Every image of every face and mode holds four bytes per pixel.
    pub open spec fn wf(&self) -> bool {
        &&& all_values(self@.faces, |i: ImageView| image_view_wf(i))
        &&& all_values(self@.modes, |m: ModeView| mode_view_wf(m))
    }
}

/// The position just after the last `/` of a path, or 0.
pub open spec fn after_last_slash(p: Seq<char>) -> int
    decreases p.len(),
{
    if p.len() == 0 {
        0
    } else if p.last() == '/' {
        p.len() as int
    } else {
        after_last_slash(p.drop_last())
    }
}

/// The last component of a path, or `avatar` where it is empty.
pub open spec fn avatar_name_of(p: Seq<char>) -> Seq<char> {
    let c = p.subrange(after_last_slash(p), p.len() as int);
    if c.len() == 0 {
        "avatar"@
    } else {
        c
    }
}

/// The directory that holds the file at `p`, where `p` has a `/`.
pub open spec fn parent_of(p: Seq<char>) -> Option<Seq<char>> {
    let i = after_last_slash(p);
    if i == 0 {
        None
    } else {
        Some(p.subrange(0, i - 1))
    }
}

pub open spec fn face_dir_of(root: Seq<char>) -> Seq<char> {
    joined(root, "face"@)
}

pub open spec fn mode_list_dir_of(root: Seq<char>) -> Seq<char> {
    joined(root, "mode"@)
}

/// The faces of the first `n` pairs of hotkey and image name.
pub open spec fn faces_upto(
    files: Seq<(Seq<char>, Seq<u8>)>,
    face_dir: Seq<char>,
    hot_keys: Seq<String>,
    names: Seq<String>,
    n: int,
) -> Seq<(Seq<char>, ImageView)>
    decreases n,
{
    if n <= 0 {
        Seq::empty()
    } else {
        let prev = faces_upto(files, face_dir, hot_keys, names, n - 1);
        match image_at(files, joined(face_dir, names[n - 1]@)) {
            Some(img) => put_entry(prev, hot_keys[n - 1]@, img),
            None => prev,
        }
    }
}

pub open spec fn min_len(a: int, b: int) -> int {
    if a < b {
        a
    } else {
        b
    }
}

/// The faces of a face manifest: hotkeys and image names paired by position.
pub open spec fn faces_model(
    files: Seq<(Seq<char>, Seq<u8>)>,
    root: Seq<char>,
    face: FaceConfig,
) -> Seq<(Seq<char>, ImageView)> {
    faces_upto(
        files,
        face_dir_of(root),
        face.hot_keys@,
        face.face_images@,
        min_len(face.hot_keys@.len() as int, face.face_images@.len() as int),
    )
}

/// The modes among the first `n` listed whose manifest could be had.
pub open spec fn modes_upto(
    files: Seq<(Seq<char>, Seq<u8>)>,
    mode_dir: Seq<char>,
    names: Seq<String>,
    configs: Seq<Result<ModeConfig, LoadError>>,
    n: int,
) -> Seq<(Seq<char>, ModeView)>
    decreases n,
{
    if n <= 0 {
        Seq::empty()
    } else {
        let prev = modes_upto(files, mode_dir, names, configs, n - 1);
        if n - 1 < configs.len() {
            match configs[n - 1] {
                Ok(c) => put_entry(prev, names[n - 1]@, mode_model(files, joined(mode_dir, names[n - 1]@), c)),
                Err(_) => prev,
            }
        } else {
            prev
        }
    }
}

pub open spec fn modes_model(
    files: Seq<(Seq<char>, Seq<u8>)>,
    root: Seq<char>,
    list: ModeListConfig,
    configs: Seq<Result<ModeConfig, LoadError>>,
) -> Seq<(Seq<char>, ModeView)> {
    modes_upto(files, mode_list_dir_of(root), list.model_paths@, configs, list.model_paths@.len() as int)
}

/// Some listed mode has its manifest.
pub open spec fn some_mode_config(names: Seq<String>, configs: Seq<Result<ModeConfig, LoadError>>) -> bool {
    exists|i: int| 0 <= i < names.len() && i < configs.len() && (#[trigger] configs[i]) is Ok
}

proof fn lemma_put_entry_len<K, V>(s: Seq<(K, V)>, k: K, v: V)
    ensures
        put_entry(s, k, v).len() >= s.len(),
        put_entry(s, k, v).len() > 0,
{
    crate::table::lemma_key_index_bounds(s, k);
}

proof fn lemma_modes_upto_nonempty(
    files: Seq<(Seq<char>, Seq<u8>)>,
    mode_dir: Seq<char>,
    names: Seq<String>,
    configs: Seq<Result<ModeConfig, LoadError>>,
    n: int,
)
    requires
        0 <= n <= names.len(),
    ensures
        modes_upto(files, mode_dir, names, configs, n).len() > 0 <==> exists|i: int|
            0 <= i < n && i < configs.len() && (#[trigger] configs[i]) is Ok,
    decreases n,
{
    if n > 0 {
        lemma_modes_upto_nonempty(files, mode_dir, names, configs, n - 1);
        let prev = modes_upto(files, mode_dir, names, configs, n - 1);
        if n - 1 < configs.len() {
            match configs[n - 1] {
                Ok(c) => {
                    lemma_put_entry_len(prev, names[n - 1]@, mode_model(files, joined(mode_dir, names[n - 1]@), c));
                },
                Err(_) => {},
            }
        }
    }
}

/// `a` is the avatar that the manifests and files give for root `path`.
pub open spec fn is_loaded_avatar(
    a: Avatar,
    path: Seq<char>,
    manifests: AvatarManifests,
    files: Seq<(Seq<char>, Seq<u8>)>,
) -> bool {
    &&& a@.name == avatar_name_of(path)
    &&& a@.base_path == path
    &&& a.face_config == manifests.face
    &&& a@.faces == faces_model(files, path, manifests.face)
    &&& a.available_modes@ == manifests.mode_list.model_paths@
    &&& a@.modes == modes_model(files, path, manifests.mode_list, manifests.mode_configs@)
    &&& a@.modes.len() > 0
    &&& a.wf()
}

/// The mode an avatar starts in: the settings' default mode where it
/// loaded, else the first mode of the list.
pub open spec fn default_mode_name(a: AvatarView) -> Option<Seq<char>> {
    if a.settings is Some && key_index(a.modes, a.settings->Some_0.default_mode@) is Some {
        Some(a.settings->Some_0.default_mode@)
    } else if a.available_modes.len() > 0 {
        Some(a.available_modes[0])
    } else {
        None
    }
}

/// The entries of a table but the one with key `k`.
pub open spec fn remove_entry<K, V>(s: Seq<(K, V)>, k: K) -> Seq<(K, V)> {
    match key_index(s, k) {
        Some(i) => s.remove(i),
        None => s,
    }
}

/// No key occurs twice.
pub open spec fn keys_unique<K, V>(s: Seq<(K, V)>) -> bool {
    forall|i: int, j: int| 0 <= i < j < s.len() ==> #[trigger] s[i].0 != #[trigger] s[j].0
}

proof fn lemma_remove_entry_absent<K, V>(s: Seq<(K, V)>, k: K)
    requires
        keys_unique(s),
    ensures
        key_index(remove_entry(s, k), k) is None,
        keys_unique(remove_entry(s, k)),
{
    crate::table::lemma_key_index_bounds(s, k);
    let t = remove_entry(s, k);
    crate::table::lemma_key_index_bounds(t, k);
    if let Some(i) = key_index(s, k) {
        assert forall|j: int| 0 <= j < t.len() implies #[trigger] t[j].0 != k by {
            if j < i {
                assert(t[j] == s[j]);
            } else {
                assert(t[j] == s[j + 1]);
            }
        }
        assert forall|a: int, b: int| 0 <= a < b < t.len() implies #[trigger] t[a].0 != #[trigger] t[b].0 by {
            let a2 = if a < i { a } else { a + 1 };
            let b2 = if b < i { b } else { b + 1 };
            assert(t[a] == s[a2]);
            assert(t[b] == s[b2]);
        }
    }
}

proof fn lemma_push_absent_unique<K, V>(s: Seq<(K, V)>, k: K, v: V)
    requires
        keys_unique(s),
        key_index(s, k) is None,
    ensures
        keys_unique(s.push((k, v))),
{
    crate::table::lemma_key_index_bounds(s, k);
    let t = s.push((k, v));
    assert forall|a: int, b: int| 0 <= a < b < t.len() implies #[trigger] t[a].0 != #[trigger] t[b].0 by {
        assert(t[a] == s[a]);
        if b < s.len() {
            assert(t[b] == s[b]);
        }
    }
}

/// Position just after the last `/` of `p`.
fn find_after_last_slash(p: &str) -> (r: usize)
    ensures
        r as int == after_last_slash(p@),
        r <= p@.len(),
{
    let n = p.unicode_len();
    let mut i: usize = n;
    assert(p@.subrange(0, n as int) =~= p@);
    while i > 0
        invariant
            i <= n,
            n == p@.len(),
            after_last_slash(p@) == after_last_slash(p@.subrange(0, i as int)),
        decreases i,
    {
        let ghost t = p@.subrange(0, i as int);
        assert(t.drop_last() =~= p@.subrange(0, i - 1));
        if p.get_char(i - 1) == '/' {
            return i;
        }
        i = i - 1;
    }
    0
}

/// The name of an avatar: the last component of its directory's path.
pub fn avatar_name(path: &str) -> (r: String)
    ensures
        r@ == avatar_name_of(path@),
{
    let start = find_after_last_slash(path);
    let n = path.unicode_len();
    let c = path.substring_char(start, n);
    if c.unicode_len() == 0 {
        "avatar".to_string()
    } else {
        c.to_string()
    }
}

/// The directory that holds the file at `path`.
pub fn parent_dir(path: &str) -> (r: Option<String>)
    ensures
        match r {
            Some(d) => parent_of(path@) == Some(d@),
            None => parent_of(path@) is None,
        },
{
    let i = find_after_last_slash(path);
    if i == 0 {
        None
    } else {
        Some(path.substring_char(0, i - 1).to_string())
    }
}

/// The directory of the face manifest and face images below `root`.
pub fn face_dir(root: &str) -> (r: String)
    ensures
        r@ == face_dir_of(root@),
{
    join_path(root, "face")
}

/// The directory of the mode list below `root`.
pub fn mode_list_dir(root: &str) -> (r: String)
    ensures
        r@ == mode_list_dir_of(root@),
{
    join_path(root, "mode")
}

/// The directory of the mode `name` below `root`.
pub fn mode_dir(root: &str, name: &str) -> (r: String)
    ensures
        r@ == joined(mode_list_dir_of(root@), name@),
{
    let d = mode_list_dir(root);
    join_path(d.as_str(), name)
}

/// The manifest file of a directory of the asset pack.
pub fn manifest_path(dir: &str) -> (r: String)
    ensures
        r@ == joined(dir@, "config.json"@),
{
    join_path(dir, "config.json")
}

fn load_faces(files: &AssetFiles, root: &str, face: &FaceConfig) -> (r: Vec<(String, ImageData)>)
    ensures
        named_view(r@) == faces_model(files@, root@, *face),
        all_values(named_view(r@), |i: ImageView| image_view_wf(i)),
{
    let dir = face_dir(root);
    let n = if face.hot_keys.len() < face.face_images.len() {
        face.hot_keys.len()
    } else {
        face.face_images.len()
    };
    let mut faces: Vec<(String, ImageData)> = Vec::new();
    assert(named_view(faces@) =~= Seq::<(Seq<char>, ImageView)>::empty());
    let mut i: usize = 0;
    while i < n
        invariant
            i <= n,
            n <= face.hot_keys@.len(),
            n <= face.face_images@.len(),
            n == min_len(face.hot_keys@.len() as int, face.face_images@.len() as int),
            dir@ == face_dir_of(root@),
            named_view(faces@) == faces_upto(files@, dir@, face.hot_keys@, face.face_images@, i as int),
            all_values(named_view(faces@), |i: ImageView| image_view_wf(i)),
        decreases n - i,
    {
        let path = join_path(dir.as_str(), face.face_images[i].as_str());
        match files.load_image(path.as_str()) {
            Ok(img) => {
                proof {
                    lemma_put_entry_all(named_view(faces@), face.hot_keys@[i as int]@, img@, |i: ImageView| image_view_wf(i));
                }
                put_named(&mut faces, face.hot_keys[i].clone(), img);
            },
            Err(_) => {},
        }
        i = i + 1;
    }
    faces
}

impl Avatar {
    /// Assembles the avatar rooted at directory `path` from its parsed
    /// manifests and the files read below it. Faces whose image is missing
    /// or does not decode are left out, and so are listed modes without a
    /// manifest. It fails, with `InvalidConfig`, where no mode loads.
    pub fn load_from_file(path: &str, manifests: AvatarManifests, files: &AssetFiles) -> (r: Result<Avatar, LoadError>)
        ensures
            r is Ok <==> some_mode_config(manifests.mode_list.model_paths@, manifests.mode_configs@),
            r is Err ==> r->Err_0 is InvalidConfig,
            r matches Ok(a) ==> is_loaded_avatar(a, path@, manifests, files@) && a@.config_path == path@
                && a.settings is None,
    {
        let AvatarManifests { face, mode_list, mode_configs } = manifests;
        let ghost configs0 = mode_configs@;
        let name = avatar_name(path);
        let face_images = load_faces(files, path, &face);
        let list_dir = mode_list_dir(path);
        let names = &mode_list.model_paths;
        let mut configs = mode_configs;
        let mut modes: Vec<(String, LoadedMode)> = Vec::new();
        assert(named_view(modes@) =~= Seq::<(Seq<char>, ModeView)>::empty());
        let mut i: usize = 0;
        while i < names.len()
            invariant
                i <= names@.len(),
                list_dir@ == mode_list_dir_of(path@),
                configs@ == (if i <= configs0.len() { configs0.subrange(i as int, configs0.len() as int) } else { Seq::empty() }),
                named_view(modes@) == modes_upto(files@, list_dir@, names@, configs0, i as int),
                all_values(named_view(modes@), |m: ModeView| mode_view_wf(m)),
            decreases names@.len() - i,
        {
            if configs.len() > 0 {
                let c = configs.remove(0);
                match c {
                    Ok(config) => {
                        let dir = join_path(list_dir.as_str(), names[i].as_str());
                        let m = LoadedMode::load(dir.as_str(), names[i].as_str(), config, files);
                        proof {
                            lemma_put_entry_all(named_view(modes@), names@[i as int]@, m@, |m: ModeView| mode_view_wf(m));
                        }
                        put_named(&mut modes, names[i].clone(), m);
                    },
                    Err(_) => {},
                }
                assert(configs@ =~= configs0.subrange(i + 1, configs0.len() as int));
            }
            i = i + 1;
        }
        proof {
            lemma_modes_upto_nonempty(files@, list_dir@, names@, configs0, names@.len() as int);
        }
        if modes.len() == 0 {
            return Err(LoadError::InvalidConfig("no mode could be loaded".to_string()));
        }
        let available_modes = mode_list.model_paths;
        Ok(Avatar {
            name,
            base_path: path.to_string(),
            config_path: path.to_string(),
            face_config: face,
            face_images,
            available_modes,
            modes,
            settings: None,
        })
    }

    /// Loads the avatar whose top-level manifest is at `config_path` and
    /// holds `settings`: the avatar is rooted at the manifest's directory.
    /// A path without a directory is `InvalidConfig`.
    pub fn load_from_config(
        config_path: &str,
        settings: AvatarSettings,
        manifests: AvatarManifests,
        files: &AssetFiles,
    ) -> (r: Result<Avatar, LoadError>)
        ensures
            r is Ok <==> parent_of(config_path@) is Some && some_mode_config(
                manifests.mode_list.model_paths@,
                manifests.mode_configs@,
            ),
            r is Err ==> r->Err_0 is InvalidConfig,
            r matches Ok(a) ==> is_loaded_avatar(a, parent_of(config_path@)->Some_0, manifests, files@)
                && a@.config_path == config_path@ && a.settings == Some(settings),
    {
        let base = match parent_dir(config_path) {
            Some(d) => d,
            None => {
                return Err(LoadError::InvalidConfig("Invalid config path".to_string()));
            },
        };
        match Avatar::load_from_file(base.as_str(), manifests, files) {
            Ok(mut avatar) => {
                avatar.settings = Some(settings);
                avatar.config_path = config_path.to_string();
                Ok(avatar)
            },
            Err(e) => Err(e),
        }
    }

    /// The mode called `name`.
    pub fn get_mode(&self, name: &str) -> (r: Option<&LoadedMode>)
        ensures
            match r {
                Some(m) => key_lookup(self@.modes, name@) == Some(m@),
                None => key_lookup(self@.modes, name@) is None,
            },
    {
        match find_named(&self.modes, name) {
            Some(i) => Some(&self.modes[i].1),
            None => None,
        }
    }

    /// The face image of hotkey `key`.
    pub fn get_face_by_key(&self, key: &str) -> (r: Option<&ImageData>)
        ensures
            match r {
                Some(img) => key_lookup(self@.faces, key@) == Some(img@),
                None => key_lookup(self@.faces, key@) is None,
            },
    {
        match find_named(&self.face_images, key) {
            Some(i) => Some(&self.face_images[i].1),
            None => None,
        }
    }

    /// The name of the mode to start in.
    pub fn default_mode_name(&self) -> (r: Option<&String>)
        ensures
            match r {
                Some(n) => default_mode_name(self@) == Some(n@),
                None => default_mode_name(self@) is None,
            },
    {
        match &self.settings {
            Some(s) => {
                if find_named(&self.modes, s.default_mode.as_str()).is_some() {
                    return Some(&s.default_mode);
                }
            },
            None => {},
        }
        if self.available_modes.len() > 0 {
            Some(&self.available_modes[0])
        } else {
            None
        }
    }

    /// The mode to start in: the settings' default mode where it loaded,
    /// else the first listed mode, where that one loaded.
    pub fn get_default_mode(&self) -> (r: Option<&LoadedMode>)
        ensures
            match r {
                Some(m) => default_mode_name(self@) matches Some(n) && key_lookup(self@.modes, n) == Some(m@),
                None => default_mode_name(self@) matches Some(n) ==> key_lookup(self@.modes, n) is None,
            },
    {
        match self.default_mode_name() {
            Some(n) => self.get_mode(n.as_str()),
            None => None,
        }
    }
}


/// Loaded avatars by the canonical path of their root directory.
pub struct AvatarLoader {
    cache: Vec<(String, Avatar)>,
}

impl View for AvatarLoader {
    type V = Seq<(Seq<char>, AvatarView)>;

    closed spec fn view(&self) -> Seq<(Seq<char>, AvatarView)> {
        named_view(self.cache@)
    }
}

impl AvatarLoader {
    /// No path is cached twice.
    pub open spec fn wf(&self) -> bool {
        keys_unique(self@)
    }

    pub fn new() -> (r: AvatarLoader)
        ensures
            r@.len() == 0,
            r.wf(),
    {
        let r = AvatarLoader { cache: Vec::new() };
        assert(r@ =~= Seq::<(Seq<char>, AvatarView)>::empty());
        r
    }

    /// How many avatars the cache holds.
    pub fn cache_len(&self) -> (r: usize)
        ensures
            r == self@.len(),
    {
        self.cache.len()
    }

    /// The cached avatar of root `path`.
    pub fn get(&self, path: &str) -> (r: Option<&Avatar>)
        ensures
            match r {
                Some(a) => key_lookup(self@, path@) == Some(a@),
                None => key_lookup(self@, path@) is None,
            },
    {
        match find_named(&self.cache, path) {
            Some(i) => Some(&self.cache[i].1),
            None => None,
        }
    }

    /// The avatar of root `path`: the cached one where there is one, else
    /// the one that the manifests and files give, which is then cached.
    pub fn load(&mut self, path: &str, manifests: AvatarManifests, files: &AssetFiles) -> (r: Result<&Avatar, LoadError>)
        requires
            old(self).wf(),
        ensures
            final(self).wf(),
            key_lookup(old(self)@, path@) is Some ==> final(self)@ == old(self)@ && r is Ok
                && r->Ok_0@ == key_lookup(old(self)@, path@)->Some_0,
            key_lookup(old(self)@, path@) is None ==> {
                &&& (r is Ok <==> some_mode_config(manifests.mode_list.model_paths@, manifests.mode_configs@))
                &&& (r matches Ok(a) ==> is_loaded_avatar(*a, path@, manifests, files@)
                    && final(self)@ == old(self)@.push((path@, a@)))
                &&& (r is Err ==> final(self)@ == old(self)@ && r->Err_0 is InvalidConfig)
            },
    {
        match find_named(&self.cache, path) {
            Some(i) => Ok(&self.cache[i].1),
            None => match Avatar::load_from_file(path, manifests, files) {
                Ok(a) => {
                    let ghost before = self.cache@;
                    let ghost p = path@;
                    let ghost av = a@;
                    self.cache.push((path.to_string(), a));
                    assert(named_view(self.cache@) =~= named_view(before).push((p, av)));
                    proof {
                        lemma_push_absent_unique(named_view(before), p, av);
                    }
                    let n = self.cache.len();
                    Ok(&self.cache[n - 1].1)
                },
                Err(e) => Err(e),
            },
        }
    }

    /// Empties the cache.
    pub fn clear_cache(&mut self)
        ensures
            final(self)@.len() == 0,
            final(self).wf(),
    {
        self.cache.clear();
        assert(self@ =~= Seq::<(Seq<char>, AvatarView)>::empty());
    }

    /// Loads the avatar of root `path` afresh, dropping the cached one.
    pub fn reload(&mut self, path: &str, manifests: AvatarManifests, files: &AssetFiles) -> (r: Result<&Avatar, LoadError>)
        requires
            old(self).wf(),
        ensures
            final(self).wf(),
            r is Ok <==> some_mode_config(manifests.mode_list.model_paths@, manifests.mode_configs@),
            r matches Ok(a) ==> is_loaded_avatar(*a, path@, manifests, files@)
                && final(self)@ == remove_entry(old(self)@, path@).push((path@, a@)),
            r is Err ==> final(self)@ == remove_entry(old(self)@, path@),
    {
        match find_named(&self.cache, path) {
            Some(i) => {
                let ghost before = self.cache@;
                self.cache.remove(i);
                assert(named_view(self.cache@) =~= named_view(before).remove(i as int));
            },
            None => {},
        }
        proof {
            lemma_remove_entry_absent(old(self)@, path@);
        }
        self.load(path, manifests, files)
    }
}

/// Loading the same root twice from the same manifests and files gives the
/// same modes (with their key caps and hand frames), faces and mode list.
pub proof fn law_load_idempotent(
    a: Avatar,
    b: Avatar,
    path: Seq<char>,
    manifests: AvatarManifests,
    files: Seq<(Seq<char>, Seq<u8>)>,
)
    requires
        is_loaded_avatar(a, path, manifests, files),
        is_loaded_avatar(b, path, manifests, files),
    ensures
        a@.modes == b@.modes,
        a@.faces == b@.faces,
        a@.available_modes == b@.available_modes,
        a@.name == b@.name,
{
}

impl Default for AvatarLoader {
    fn default() -> (r: AvatarLoader)
        ensures
            r@.len() == 0,
            r.wf(),
    {
        AvatarLoader::new()
    }
}

} // verus!
