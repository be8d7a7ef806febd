//! Assembling an avatar from its face images and modes, and the avatar
//! cache.

use vstd::prelude::*;
use crate::loader::config::{AvatarSettings, FaceConfig, LoadError, ModeConfig, ModeListConfig};
use crate::loader::image::{
    fetch_image, named_image_models, store_well_formed, stored_image, ImageData, ImageModel, ImageStore,
};
use crate::loader::mode::{
    agree_on, lemma_load_reads_only_mode_image_paths, mode_image_paths, texts, LoadedMode,
};
use crate::str_map::StrMap;
use crate::text::{file_name_of, join_spec, parent_of, path_file_name, path_join, path_parent};

verus! {

/// Face images by hot key, from the first `n` pairs of `keys` and `names`
/// (images in `face_dir`); a later pair overrides an earlier one.
pub open spec fn face_images_upto(
    face_dir: Seq<char>,
    keys: Seq<String>,
    names: Seq<String>,
    store: Map<Seq<char>, Result<ImageData, String>>,
    n: int,
) -> Map<Seq<char>, ImageModel>
    decreases n,
{
    if n <= 0 {
        Map::empty()
    } else {
        let prev = face_images_upto(face_dir, keys, names, store, n - 1);
        match stored_image(store, join_spec(face_dir, names[n - 1]@)) {
            Some(img) => prev.insert(keys[n - 1]@, img),
            None => prev,
        }
    }
}

/// The number of (hot key, image name) pairs of a face configuration.
pub open spec fn face_pairs(c: FaceConfig) -> int {
    if c.hot_keys@.len() <= c.face_images@.len() {
        c.hot_keys@.len() as int
    } else {
        c.face_images@.len() as int
    }
}

/// For each mode name that loaded, the index of the entry whose load is
/// kept: the last entry with that name whose configuration could be read.
pub open spec fn mode_sources(names: Seq<String>, configs: Seq<Option<ModeConfig>>, n: int) -> Map<Seq<char>, int>
    decreases n,
{
    if n <= 0 {
        Map::empty()
    } else {
        let prev = mode_sources(names, configs, n - 1);
        if n - 1 < configs.len() && configs[n - 1] is Some {
            prev.insert(names[n - 1]@, n - 1)
        } else {
            prev
        }
    }
}

/// Each kept mode source is an entry whose configuration was read.
proof fn lemma_mode_sources_some(names: Seq<String>, configs: Seq<Option<ModeConfig>>, n: int)
    ensures
        forall|k: Seq<char>| #[trigger] mode_sources(names, configs, n).contains_key(k) ==> {
            let i = mode_sources(names, configs, n)[k];
            &&& 0 <= i < n
            &&& i < configs.len()
            &&& configs[i] is Some
            &&& names[i]@ == k
        },
    decreases n,
{
    if n > 0 {
        lemma_mode_sources_some(names, configs, n - 1);
    }
}

/// The directory of a config file whose path has parent `parent`: the
/// current directory "." for a bare file name, whose parent is empty.
pub open spec fn config_dir(parent: Seq<char>) -> Seq<char> {
    if parent.len() == 0 {
        "."@
    } else {
        parent
    }
}

/// The name an avatar directory gives its avatar.
pub open spec fn avatar_name(path: Seq<char>) -> Seq<char> {
    match path_file_name(path) {
        Some(n) => n,
        None => "avatar"@,
    }
}

/// The image paths of the first `n` face images named in `names`, in `face_dir`.
pub open spec fn face_paths_upto(face_dir: Seq<char>, names: Seq<String>, n: int) -> Seq<Seq<char>>
    decreases n,
{
    if n <= 0 {
        seq![]
    } else {
        face_paths_upto(face_dir, names, n - 1).push(join_spec(face_dir, names[n - 1]@))
    }
}

/// The first `n` face image paths: one per name, in order.
proof fn lemma_face_paths_upto(face_dir: Seq<char>, names: Seq<String>, n: int)
    requires
        0 <= n,
    ensures
        face_paths_upto(face_dir, names, n).len() == n,
        forall|j: int| 0 <= j < n ==> #[trigger] face_paths_upto(face_dir, names, n)[j] == join_spec(face_dir, names[j]@),
    decreases n,
{
    if n > 0 {
        lemma_face_paths_upto(face_dir, names, n - 1);
    }
}

proof fn lemma_face_images_frame(
    face_dir: Seq<char>,
    keys: Seq<String>,
    names: Seq<String>,
    s1: Map<Seq<char>, Result<ImageData, String>>,
    s2: Map<Seq<char>, Result<ImageData, String>>,
    n: int,
)
    requires
        agree_on(s1, s2, face_paths_upto(face_dir, names, n)),
    ensures
        face_images_upto(face_dir, keys, names, s1, n) == face_images_upto(face_dir, keys, names, s2, n),
    decreases n,
{
    if n > 0 {
        let prev = face_paths_upto(face_dir, names, n - 1);
        let p = join_spec(face_dir, names[n - 1]@);
        assert(prev.push(p)[prev.len() as int] == p);
        assert(agree_on(s1, s2, prev)) by {
            assert forall|q: Seq<char>| prev.contains(q) implies stored_image(s1, q) == stored_image(s2, q) by {
                let i = choose|i: int| 0 <= i < prev.len() && prev[i] == q;
                assert(prev.push(p)[i] == q);
            }
        }
        lemma_face_images_frame(face_dir, keys, names, s1, s2, n - 1);
    }
}


/// Each face image comes from a pair (hot key, image name) among the first
/// `n`, and is the stored image at the face directory joined with the name.
proof fn lemma_face_images_source(
    face_dir: Seq<char>,
    keys: Seq<String>,
    names: Seq<String>,
    store: Map<Seq<char>, Result<ImageData, String>>,
    n: int,
    k: Seq<char>,
)
    requires
        face_images_upto(face_dir, keys, names, store, n).contains_key(k),
    ensures
        exists|i: int|
            0 <= i < n && (#[trigger] keys[i])@ == k && stored_image(store, join_spec(face_dir, names[i]@)) == Some(
                face_images_upto(face_dir, keys, names, store, n)[k],
            ),
    decreases n,
{
    if n > 0 {
        let prev = face_images_upto(face_dir, keys, names, store, n - 1);
        match stored_image(store, join_spec(face_dir, names[n - 1]@)) {
            Some(img) => {
                if keys[n - 1]@ != k {
                    lemma_face_images_source(face_dir, keys, names, store, n - 1, k);
                } else {
                    assert(keys[n - 1]@ == k);
                }
            },
            None => {
                lemma_face_images_source(face_dir, keys, names, store, n - 1, k);
            },
        }
    }
}

/// The pair `i` among the first `n`, whose image loads and whose hot key
/// no later pair repeats, gives the face image of its hot key.
proof fn lemma_face_pair_kept(
    face_dir: Seq<char>,
    keys: Seq<String>,
    names: Seq<String>,
    store: Map<Seq<char>, Result<ImageData, String>>,
    i: int,
    n: int,
)
    requires
        0 <= i < n,
        stored_image(store, join_spec(face_dir, names[i]@)) is Some,
        forall|j: int| i < j < n ==> (#[trigger] keys[j])@ != keys[i]@,
    ensures
        face_images_upto(face_dir, keys, names, store, n).contains_key(keys[i]@),
        stored_image(store, join_spec(face_dir, names[i]@)) == Some(
            face_images_upto(face_dir, keys, names, store, n)[keys[i]@],
        ),
    decreases n,
{
    if n > i + 1 {
        lemma_face_pair_kept(face_dir, keys, names, store, i, n - 1);
        assert(keys[n - 1]@ != keys[i]@);
    }
}

/// Complete avatar with all modes and face expressions.
#[derive(Debug)]
pub struct Avatar {
    pub name: String,
    pub base_path: String,
    pub config_path: String,
    pub face_config: FaceConfig,
    pub face_images: StrMap<ImageData>,
    pub available_modes: Vec<String>,
    pub modes: StrMap<LoadedMode>,
    pub settings: Option<AvatarSettings>,
}

impl Avatar {
    /// `modes` holds, for each listed mode whose configuration could be
    /// read, that mode loaded from `mode_root/<name>`.
    pub open spec fn modes_loaded_as(
        modes: Map<Seq<char>, LoadedMode>,
        mode_root: Seq<char>,
        names: Seq<String>,
        configs: Seq<Option<ModeConfig>>,
        n: int,
        store: Map<Seq<char>, Result<ImageData, String>>,
    ) -> bool {
        let src = mode_sources(names, configs, n);
        &&& modes.dom() == src.dom()
        &&& forall|k: Seq<char>| #[trigger] modes.contains_key(k) ==> {
            let i = src[k];
            &&& 0 <= i < n
            &&& i < configs.len()
            &&& names[i]@ == k
            &&& modes[k].loaded_as(join_spec(mode_root, k), k, configs[i]->0, store)
        }
    }

    /// What an avatar loaded from directory `path` holds.
    pub open spec fn loaded_from(
        self,
        path: Seq<char>,
        canonical: Seq<char>,
        face_config: FaceConfig,
        mode_list: ModeListConfig,
        configs: Seq<Option<ModeConfig>>,
        store: Map<Seq<char>, Result<ImageData, String>>,
    ) -> bool {
        &&& self.name@ == avatar_name(path)
        &&& self.base_path@ == path
        &&& self.config_path@ == canonical
        &&& self.face_config == face_config
        &&& named_image_models(self.face_images@) == face_images_upto(
            join_spec(path, "face"@),
            face_config.hot_keys@,
            face_config.face_images@,
            store,
            face_pairs(face_config),
        )
        &&& self.available_modes == mode_list.model_paths
        &&& Self::modes_loaded_as(
            self.modes@,
            join_spec(path, "mode"@),
            mode_list.model_paths@,
            configs,
            mode_list.model_paths@.len() as int,
            store,
        )
        &&& self.settings is None
    }

    /// Each face image sits at the face directory of `path` joined with the
    /// image name paired with its hot key.
    pub open spec fn face_images_at_paired_names(self, path: Seq<char>) -> bool {
        forall|key: Seq<char>| #[trigger]
            self.face_images@.contains_key(key) ==> exists|i: int|
                0 <= i < face_pairs(self.face_config) && (#[trigger] self.face_config.hot_keys@[i])@ == key
                    && self.face_images@[key].path@ == join_spec(
                    join_spec(path, "face"@),
                    self.face_config.face_images@[i]@,
                )
    }

    /// Whether `r` is what assembling the avatar in directory `path` gives
    /// from its canonical path (`None` when it could not be resolved) and
    /// what was read there.
    pub open spec fn assembled_as(
        r: Result<Avatar, LoadError>,
        path: Seq<char>,
        canonical: Option<String>,
        face_config: Result<FaceConfig, LoadError>,
        mode_list: Result<ModeListConfig, LoadError>,
        configs: Seq<Option<ModeConfig>>,
        store: Map<Seq<char>, Result<ImageData, String>>,
    ) -> bool {
        match canonical {
            None => r matches Err(LoadError::InvalidConfig(m)) && m@ == "Invalid config path"@,
            Some(c) => match face_config {
                Err(e) => r == Err::<Avatar, LoadError>(e),
                Ok(fc) => match mode_list {
                    Err(e) => r == Err::<Avatar, LoadError>(e),
                    Ok(ml) => r matches Ok(a) && a.loaded_from(path, c@, fc, ml, configs, store),
                },
            },
        }
    }

    /// Directory of the face configuration and images of the avatar in `path`.
    pub fn face_dir(path: &str) -> (r: String)
        ensures
            r@ == join_spec(path@, "face"@),
    {
        path_join(path, "face")
    }

    /// Directory of the mode list and mode directories of the avatar in `path`.
    pub fn mode_dir(path: &str) -> (r: String)
        ensures
            r@ == join_spec(path@, "mode"@),
    {
        path_join(path, "mode")
    }

    /// Assembles the avatar in directory `path` from what was read there:
    /// its canonical path (`None` when it could not be resolved), its face
    /// configuration, its mode list, the configuration of each listed mode
    /// in list order (`None` for one that could not be read; missing trailing
    /// entries count as `None`), and the images that could be loaded.
    pub fn load_from_file(
        path: &str,
        canonical: Option<String>,
        face_config: Result<FaceConfig, LoadError>,
        mode_list: Result<ModeListConfig, LoadError>,
        mode_configs: Vec<Option<ModeConfig>>,
        images: &ImageStore,
    ) -> (r: Result<Self, LoadError>)
        ensures
            Self::assembled_as(r, path@, canonical, face_config, mode_list, mode_configs@, images@),
            r matches Ok(a) ==> a.face_images_at_paired_names(path@),
    {
        let canonical_config_path = match canonical {
            Some(c) => c,
            None => {
                return Err(LoadError::InvalidConfig("Invalid config path".to_owned()));
            },
        };
        let name = match file_name_of(path) {
            Some(n) => n,
            None => "avatar".to_owned(),
        };
        // Load face configuration
        let face_path = Self::face_dir(path);
        let face_config = face_config?;
        // Load face images
        let mut face_images: StrMap<ImageData> = StrMap::new();
        let pairs: usize = if face_config.hot_keys.len() <= face_config.face_images.len() {
            face_config.hot_keys.len()
        } else {
            face_config.face_images.len()
        };
        assert(named_image_models(face_images@) =~= Map::empty());
        for i in 0..pairs
            invariant
                pairs == face_pairs(face_config),
                named_image_models(face_images@) == face_images_upto(
                    face_path@,
                    face_config.hot_keys@,
                    face_config.face_images@,
                    images@,
                    i as int,
                ),
        {
            let img_path = path_join(face_path.as_str(), face_config.face_images[i].as_str());
            if let Ok(img) = fetch_image(images, img_path.as_str()) {
                let ghost before = face_images@;
                face_images.insert(face_config.hot_keys[i].clone(), img);
                assert(named_image_models(face_images@) =~= named_image_models(before).insert(
                    face_config.hot_keys@[i as int]@,
                    img@,
                ));
            }
        }
        // Load mode list
        let mode_path = Self::mode_dir(path);
        let mode_list = mode_list?;
        // Load each mode
        let mut modes: StrMap<LoadedMode> = StrMap::new();
        let mut configs = mode_configs;
        let ghost all_configs = configs@;
        let n = mode_list.model_paths.len();
        assert(modes@ =~= Map::empty());
        for i in 0..n
            invariant
                n == mode_list.model_paths@.len(),
                configs@ == (if i < all_configs.len() {
                    all_configs.subrange(i as int, all_configs.len() as int)
                } else {
                    Seq::empty()
                }),
                Self::modes_loaded_as(modes@, mode_path@, mode_list.model_paths@, all_configs, i as int, images@),
        {
            let ghost names = mode_list.model_paths@;
            let mode_name = &mode_list.model_paths[i];
            let config = if configs.len() > 0 {
                configs.remove(0)
            } else {
                None
            };
            assert(config == (if i < all_configs.len() { all_configs[i as int] } else { None }));
            let mode_dir = path_join(mode_path.as_str(), mode_name.as_str());
            if let Some(config) = config {
                match LoadedMode::load(mode_dir.as_str(), mode_name.as_str(), config, images) {
                    Ok(loaded_mode) => {
                        modes.insert(mode_name.clone(), loaded_mode);
                        assert(modes@.dom() =~= mode_sources(names, all_configs, i + 1).dom());
                    },
                    Err(_e) => {},
                }
            }
        }
        let avatar = Avatar {
            name,
            base_path: path.to_owned(),
            config_path: canonical_config_path,
            face_config,
            face_images,
            available_modes: mode_list.model_paths,
            modes,
            settings: None,
        };
        proof {
            use_type_invariant(images);
            assert forall|key: Seq<char>| #[trigger] avatar.face_images@.contains_key(key) implies exists|i: int|
                0 <= i < face_pairs(avatar.face_config) && (#[trigger] avatar.face_config.hot_keys@[i])@ == key
                    && avatar.face_images@[key].path@ == join_spec(
                    join_spec(path@, "face"@),
                    avatar.face_config.face_images@[i]@,
                ) by {
                Self::lemma_face_image_path(
                    avatar,
                    path@,
                    avatar.config_path@,
                    avatar.face_config,
                    mode_list,
                    mode_configs@,
                    images@,
                    key,
                );
            }
        }
        Ok(avatar)
    }


    /// A face image sits at the face directory joined with the image name
    /// paired with its hot key, when the store holds each image under its
    /// own path.
    proof fn lemma_face_image_path(
        self,
        path: Seq<char>,
        canonical: Seq<char>,
        face_config: FaceConfig,
        mode_list: ModeListConfig,
        configs: Seq<Option<ModeConfig>>,
        store: Map<Seq<char>, Result<ImageData, String>>,
        key: Seq<char>,
    )
        requires
            self.loaded_from(path, canonical, face_config, mode_list, configs, store),
            store_well_formed(store),
            self.face_images@.contains_key(key),
        ensures
            exists|i: int|
                0 <= i < face_pairs(face_config) && (#[trigger] face_config.hot_keys@[i])@ == key
                    && self.face_images@[key].path@ == join_spec(
                    join_spec(path, "face"@),
                    face_config.face_images@[i]@,
                ),
    {
        let dir = join_spec(path, "face"@);
        let n = face_pairs(face_config);
        let m = face_images_upto(dir, face_config.hot_keys@, face_config.face_images@, store, n);
        assert(named_image_models(self.face_images@).contains_key(key));
        lemma_face_images_source(dir, face_config.hot_keys@, face_config.face_images@, store, n, key);
        let i = choose|i: int|
            0 <= i < n && (#[trigger] face_config.hot_keys@[i])@ == key && stored_image(
                store,
                join_spec(dir, face_config.face_images@[i]@),
            ) == Some(m[key]);
        let p = join_spec(dir, face_config.face_images@[i]@);
        assert(store.contains_key(p));
        assert(named_image_models(self.face_images@)[key] == self.face_images@[key]@);
    }

    /// Every (hot key, face image name) pair loads: for each index below
    /// both the number of hot keys and the number of face image names, whose
    /// image in the face directory loads and whose hot key no other such
    /// pair repeats, the avatar's face image for that hot key is that image.
    pub proof fn lemma_every_face_pair_loads(
        self,
        path: Seq<char>,
        canonical: Seq<char>,
        face_config: FaceConfig,
        mode_list: ModeListConfig,
        configs: Seq<Option<ModeConfig>>,
        store: Map<Seq<char>, Result<ImageData, String>>,
        i: int,
    )
        requires
            self.loaded_from(path, canonical, face_config, mode_list, configs, store),
            0 <= i,
            i < face_config.hot_keys@.len(),
            i < face_config.face_images@.len(),
            stored_image(store, join_spec(join_spec(path, "face"@), face_config.face_images@[i]@)) is Some,
            forall|j: int|
                0 <= j < face_config.hot_keys@.len() && j < face_config.face_images@.len() && j != i
                    ==> (#[trigger] face_config.hot_keys@[j])@ != face_config.hot_keys@[i]@,
        ensures
            self.face_images@.contains_key(face_config.hot_keys@[i]@),
            stored_image(store, join_spec(join_spec(path, "face"@), face_config.face_images@[i]@)) == Some(
                self.face_images@[face_config.hot_keys@[i]@]@,
            ),
    {
        let dir = join_spec(path, "face"@);
        let n = face_pairs(face_config);
        lemma_face_pair_kept(dir, face_config.hot_keys@, face_config.face_images@, store, i, n);
        let key = face_config.hot_keys@[i]@;
        assert(named_image_models(self.face_images@).contains_key(key));
        assert(named_image_models(self.face_images@)[key] == self.face_images@[key]@);
    }

    /// The image paths that loading the avatar in `path` looks up for its
    /// face images.
    pub fn face_image_paths(path: &str, face_config: &FaceConfig) -> (r: Vec<String>)
        ensures
            r@.len() <= face_config.hot_keys@.len(),
            r@.len() <= face_config.face_images@.len(),
            forall|i: int|
                0 <= i < face_config.hot_keys@.len() && 0 <= i < face_config.face_images@.len() ==> i < r@.len()
                    && (#[trigger] r@[i])@ == join_spec(join_spec(path@, "face"@), face_config.face_images@[i]@),
            texts(r@) == face_paths_upto(
                join_spec(path@, "face"@),
                face_config.face_images@,
                face_pairs(*face_config),
            ),
    {
        let face_path = Self::face_dir(path);
        let pairs: usize = if face_config.hot_keys.len() <= face_config.face_images.len() {
            face_config.hot_keys.len()
        } else {
            face_config.face_images.len()
        };
        let mut r: Vec<String> = Vec::new();
        assert(texts(r@) =~= seq![]);
        for i in 0..pairs
            invariant
                pairs <= face_config.face_images@.len(),
                texts(r@) == face_paths_upto(face_path@, face_config.face_images@, i as int),
        {
            let ghost before = texts(r@);
            r.push(path_join(face_path.as_str(), face_config.face_images[i].as_str()));
            assert(texts(r@) =~= before.push(join_spec(face_path@, face_config.face_images@[i as int]@)));
        }
        proof {
            lemma_face_paths_upto(face_path@, face_config.face_images@, pairs as int);
            assert forall|i: int|
                0 <= i < face_config.hot_keys@.len() && 0 <= i < face_config.face_images@.len() implies i < r@.len()
                    && (#[trigger] r@[i])@ == join_spec(face_path@, face_config.face_images@[i]@) by {
                assert(texts(r@)[i] == r@[i]@);
            }
        }
        r
    }

    /// Loading an avatar looks only at its face image paths and at the image
    /// paths of each mode whose configuration was read: two image stores
    /// that agree there give the same avatar.
    pub proof fn lemma_load_reads_only_asset_paths(
        self,
        path: Seq<char>,
        canonical: Seq<char>,
        face_config: FaceConfig,
        mode_list: ModeListConfig,
        configs: Seq<Option<ModeConfig>>,
        s1: Map<Seq<char>, Result<ImageData, String>>,
        s2: Map<Seq<char>, Result<ImageData, String>>,
    )
        requires
            agree_on(
                s1,
                s2,
                face_paths_upto(join_spec(path, "face"@), face_config.face_images@, face_pairs(face_config)),
            ),
            forall|i: int|
                0 <= i < mode_list.model_paths@.len() && i < configs.len() && #[trigger] configs[i] is Some
                    ==> agree_on(
                    s1,
                    s2,
                    mode_image_paths(join_spec(join_spec(path, "mode"@), mode_list.model_paths@[i]@), configs[i]->0),
                ),
        ensures
            self.loaded_from(path, canonical, face_config, mode_list, configs, s1) <==> self.loaded_from(
                path,
                canonical,
                face_config,
                mode_list,
                configs,
                s2,
            ),
    {
        lemma_face_images_frame(
            join_spec(path, "face"@),
            face_config.hot_keys@,
            face_config.face_images@,
            s1,
            s2,
            face_pairs(face_config),
        );
        let names = mode_list.model_paths@;
        let mode_root = join_spec(path, "mode"@);
        let src = mode_sources(names, configs, names.len() as int);
        assert forall|k: Seq<char>| #[trigger] self.modes@.contains_key(k) && src.contains_key(k) && 0 <= src[k]
            < names.len() && src[k] < configs.len() && configs[src[k]] is Some && names[src[k]]@ == k implies (
        self.modes@[k].loaded_as(join_spec(mode_root, k), k, configs[src[k]]->0, s1) <==> self.modes@[k].loaded_as(
            join_spec(mode_root, k),
            k,
            configs[src[k]]->0,
            s2,
        )) by {
            lemma_load_reads_only_mode_image_paths(
                join_spec(mode_root, k),
                k,
                configs[src[k]]->0,
                s1,
                s2,
                self.modes@[k],
            );
        }
        lemma_mode_sources_some(names, configs, names.len() as int);
    }

    /// Loads the avatar described by the configuration file `config_path`
    /// (e.g. "avatar.json"): `settings` is what reading that file gave, and
    /// `load_dir` loads the avatar directory (the file's parent, or "." for a
    /// bare file name) as `load_from_file` does.
    pub fn load_from_config<F: FnOnce(String) -> Result<Avatar, LoadError>>(
        config_path: &str,
        settings: Result<AvatarSettings, LoadError>,
        load_dir: F,
    ) -> (r: Result<Self, LoadError>)
        requires
            forall|dir: String| load_dir.requires((dir,)),
        ensures
            match settings {
                Err(e) => r == Err::<Self, LoadError>(e),
                Ok(st) => match path_parent(config_path@) {
                    None => r matches Err(LoadError::InvalidConfig(m)) && m@ == "Invalid config path"@,
                    Some(base) => exists|dir: String, loaded: Result<Avatar, LoadError>|
                        dir@ == config_dir(base) && #[trigger] load_dir.ensures((dir,), loaded) && match loaded {
                            Err(e) => r == Err::<Self, LoadError>(e),
                            Ok(a) => r matches Ok(b) && b.config_path@ == config_path@ && b.settings
                                == Some(st) && b.name == a.name && b.base_path == a.base_path
                                && b.face_config == a.face_config && b.face_images == a.face_images
                                && b.available_modes == a.available_modes && b.modes == a.modes,
                        },
                },
            },
    {
        // 1. The settings the config file holds
        let settings = settings?;
        // 2. Get base directory
        let base_path = match parent_of(config_path) {
            // A bare file name lies in the current directory.
            Some(b) => if b.as_str().is_empty() {
                ".".to_owned()
            } else {
                b
            },
            None => {
                return Err(LoadError::InvalidConfig("Invalid config path".to_owned()));
            },
        };
        // 3. Load resources using base path
        let mut avatar = load_dir(base_path)?;
        // 4. Attach settings and correct config path
        avatar.settings = Some(settings);
        avatar.config_path = config_path.to_owned();
        Ok(avatar)
    }

    /// Get a specific mode by name.
    pub fn get_mode(&self, name: &str) -> (r: Option<&LoadedMode>)
        ensures
            match r {
                Some(m) => self.modes@.contains_key(name@) && *m == self.modes@[name@],
                None => !self.modes@.contains_key(name@),
            },
    {
        self.modes.get(name)
    }

    /// Get face image by hotkey.
    pub fn get_face_by_key(&self, key: &str) -> (r: Option<&ImageData>)
        ensures
            match r {
                Some(img) => self.face_images@.contains_key(key@) && *img == self.face_images@[key@],
                None => !self.face_images@.contains_key(key@),
            },
    {
        self.face_images.get(key)
    }

    /// Get default mode: the first available one, if it loaded.
    pub fn get_default_mode(&self) -> (r: Option<&LoadedMode>)
        ensures
            match r {
                Some(m) => self.available_modes@.len() > 0 && self.modes@.contains_key(
                    self.available_modes@[0]@,
                ) && *m == self.modes@[self.available_modes@[0]@],
                None => self.available_modes@.len() == 0 || !self.modes@.contains_key(
                    self.available_modes@[0]@,
                ),
            },
    {
        if self.available_modes.len() == 0 {
            None
        } else {
            self.modes.get(self.available_modes[0].as_str())
        }
    }
}

/// Avatars loaded so far, by canonical path.
pub struct AvatarLoader {
    pub cache: StrMap<Avatar>,
}

/// The key an avatar path is cached under: its canonical form, or the path
/// itself when it has none.
pub open spec fn cache_key(path: Seq<char>, canonical: Option<String>) -> Seq<char> {
    match canonical {
        Some(c) => c@,
        None => path,
    }
}

/// What loading an avatar reads from its directory: its face
/// configuration, its mode list, the configuration of each listed mode in
/// list order (`None` for one that could not be read) and the images.
pub struct AvatarSources {
    pub face_config: Result<FaceConfig, LoadError>,
    pub mode_list: Result<ModeListConfig, LoadError>,
    pub mode_configs: Vec<Option<ModeConfig>>,
    pub images: ImageStore,
}

impl AvatarLoader {
    /// Every cached avatar is stored under its own config path (the
    /// canonical path it was loaded from) and carries no settings.
    pub open spec fn cache_keyed_by_path(&self) -> bool {
        forall|k: Seq<char>| #[trigger]
            self.cache@.contains_key(k) ==> self.cache@[k].config_path@ == k && self.cache@[k].settings is None
    }

    /// An empty loader.
    pub fn new() -> (r: Self)
        ensures
            r.cache@ == Map::<Seq<char>, Avatar>::empty(),
            r.cache_keyed_by_path(),
    {
        Self { cache: StrMap::new() }
    }

    /// Load an avatar, using the cache if it holds one: `canonical` is the
    /// canonical form of `path` (`None` when it has none). On a cache miss,
    /// `read` reads what the avatar directory holds, and the avatar is
    /// assembled from it as `Avatar::load_from_file` does.
    pub fn load<F: FnOnce() -> AvatarSources>(
        &mut self,
        path: &str,
        canonical: Option<String>,
        read: F,
    ) -> (r: Result<&Avatar, LoadError>)
        requires
            read.requires(()),
        ensures
            ({
                let key = cache_key(path@, canonical);
                if old(self).cache@.contains_key(key) {
                    &&& final(self).cache@ == old(self).cache@
                    &&& r matches Ok(a) && *a == old(self).cache@[key]
                } else {
                    exists|src: AvatarSources, loaded: Result<Avatar, LoadError>|
                        #[trigger] read.ensures((), src) && #[trigger] Avatar::assembled_as(
                            loaded,
                            path@,
                            canonical,
                            src.face_config,
                            src.mode_list,
                            src.mode_configs@,
                            src.images@,
                        ) && match loaded {
                            Ok(av) => final(self).cache@ == old(self).cache@.insert(key, av) && (r matches Ok(a)
                                && *a == av),
                            Err(e) => final(self).cache@ == old(self).cache@ && r == Err::<&Avatar, LoadError>(e),
                        }
                }
            }),
            old(self).cache_keyed_by_path() ==> final(self).cache_keyed_by_path(),
    {
        let key = match &canonical {
            Some(c) => c.clone(),
            None => path.to_owned(),
        };
        if !self.cache.contains_key(key.as_str()) {
            let sources = read();
            let ghost src = sources;
            let AvatarSources { face_config, mode_list, mode_configs, images } = sources;
            let loaded = Avatar::load_from_file(path, canonical, face_config, mode_list, mode_configs, &images);
            assert(Avatar::assembled_as(
                loaded,
                path@,
                canonical,
                src.face_config,
                src.mode_list,
                src.mode_configs@,
                src.images@,
            ));
            let avatar = loaded?;
            self.cache.insert(key.clone(), avatar);
        }
        Ok(self.cache.get(key.as_str()).unwrap())
    }

    /// Clear the cache.
    pub fn clear_cache(&mut self)
        ensures
            final(self).cache@ == Map::<Seq<char>, Avatar>::empty(),
            final(self).cache_keyed_by_path(),
    {
        self.cache.clear();
    }

    /// Reload an avatar: drops the cached one, if any, and loads it anew.
    pub fn reload<F: FnOnce() -> AvatarSources>(
        &mut self,
        path: &str,
        canonical: Option<String>,
        read: F,
    ) -> (r: Result<&Avatar, LoadError>)
        requires
            read.requires(()),
        ensures
            ({
                let key = cache_key(path@, canonical);
                exists|src: AvatarSources, loaded: Result<Avatar, LoadError>|
                    #[trigger] read.ensures((), src) && #[trigger] Avatar::assembled_as(
                        loaded,
                        path@,
                        canonical,
                        src.face_config,
                        src.mode_list,
                        src.mode_configs@,
                        src.images@,
                    ) && match loaded {
                        Ok(av) => final(self).cache@ == old(self).cache@.insert(key, av) && (r matches Ok(a) && *a
                            == av),
                        Err(e) => final(self).cache@ == old(self).cache@.remove(key) && r == Err::<
                            &Avatar,
                            LoadError,
                        >(e),
                    }
            }),
            old(self).cache_keyed_by_path() ==> final(self).cache_keyed_by_path(),
    {
        let key = match &canonical {
            Some(c) => c.clone(),
            None => path.to_owned(),
        };
        self.cache.remove(key.as_str());
        self.load(path, canonical, read)
    }
}

impl Default for AvatarLoader {
    fn default() -> (r: Self)
        ensures
            r.cache@ == Map::<Seq<char>, Avatar>::empty(),
            r.cache_keyed_by_path(),
    {
        Self::new()
    }
}

} // verus!
