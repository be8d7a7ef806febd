//! Decoded images and the store of the images a load can use.

use vstd::prelude::*;
use crate::loader::config::LoadError;
use crate::str_map::StrMap;

verus! {

/// Loaded image data: RGBA8 pixels, row by row.
#[derive(Debug, Clone)]
pub struct ImageData {
    pub path: String,
    pub width: u32,
    pub height: u32,
    pub data: Vec<u8>,
}

/// What an `ImageData` holds, as mathematical values.
pub ghost struct ImageModel {
    pub path: Seq<char>,
    pub width: u32,
    pub height: u32,
    pub data: Seq<u8>,
}

impl View for ImageData {
    type V = ImageModel;

    open spec fn view(&self) -> ImageModel {
        ImageModel { path: self.path@, width: self.width, height: self.height, data: self.data@ }
    }
}

/// Name for what the `image` crate decodes from `bytes`, the content of
/// an image file at `path` (format chosen among the crate's built-in formats
/// by the path's extension): width, height and RGBA8 pixels, or the text of
/// the error that stopped it.
pub uninterp spec fn decoded_rgba8(path: Seq<char>, bytes: Seq<u8>) -> Result<(u32, u32, Seq<u8>), Seq<char>>;

/// Decodes `bytes` with `image::ImageReader::with_format` (the format that
/// `image::ImageFormat::from_path` gives for `path`), then takes the
/// dimensions and the RGBA8 pixels of the result. The contract claims
/// that the outcome, pixels or error text, is the one named
/// `decoded_rgba8`, and that the pixels hold four bytes per pixel (the
/// decoder's buffer is allocated at exactly that size, and the RGBA8
/// conversion makes one pixel of each).
#[verifier::external_body]
fn decode_rgba8(path: &str, bytes: &[u8]) -> (r: Result<(u32, u32, Vec<u8>), String>)
    ensures
        match r {
            Ok((w, h, d)) => decoded_rgba8(path@, bytes@) == Ok::<(u32, u32, Seq<u8>), Seq<char>>((w, h, d@)) && d@.len()
                == 4 * (w as int) * (h as int),
            Err(e) => decoded_rgba8(path@, bytes@) == Err::<(u32, u32, Seq<u8>), Seq<char>>(e@),
        },
{
    let format = image::ImageFormat::from_path(path).map_err(|e| e.to_string())?;
    let img = image::ImageReader::with_format(std::io::Cursor::new(bytes), format).decode().map_err(
        |e| e.to_string(),
    )?;
    let (width, height) = image::GenericImageView::dimensions(&img);
    Ok((width, height, img.to_rgba8().into_raw()))
}

/// The message of an image load that failed with `reason`.
pub open spec fn load_failure_text(reason: Seq<char>) -> Seq<char> {
    "Failed to load image: "@ + reason
}

/// What loading the image file at `path`, whose content is `bytes`, gives:
/// the decoded image, or the message of the failed load.
pub open spec fn image_outcome(path: Seq<char>, bytes: Seq<u8>) -> Result<ImageModel, Seq<char>> {
    match decoded_rgba8(path, bytes) {
        Ok((w, h, d)) => Ok(ImageModel { path, width: w, height: h, data: d }),
        Err(e) => Err(load_failure_text(e)),
    }
}

/// The text `"Failed to load image: "` followed by `reason`.
fn failure_message(reason: &str) -> (m: String)
    ensures
        m@ == load_failure_text(reason@),
{
    let mut m = "Failed to load image: ".to_owned();
    m.append(reason);
    m
}

impl ImageData {
    /// The pixels hold exactly four bytes (RGBA) for each of the image's
    /// width times height pixels.
    pub open spec fn pixels_fit(&self) -> bool {
        self.data@.len() == 4 * (self.width as int) * (self.height as int)
    }

    /// Decodes the image file at `path`, whose content is `bytes`, into RGBA8
    /// pixels.
    pub fn load(path: &str, bytes: &[u8]) -> (r: Result<ImageData, LoadError>)
        ensures
            match r {
                Ok(img) => image_outcome(path@, bytes@) == Ok::<ImageModel, Seq<char>>(img@) && img.pixels_fit(),
                Err(e) => e matches LoadError::InvalidConfig(m) && image_outcome(path@, bytes@) == Err::<
                    ImageModel,
                    Seq<char>,
                >(m@),
            },
    {
        match decode_rgba8(path, bytes) {
            Ok((width, height, data)) => Ok(ImageData { path: path.to_owned(), width, height, data }),
            Err(e) => Err(LoadError::InvalidConfig(failure_message(e.as_str()))),
        }
    }

    /// A copy of this image.
    pub fn copy(&self) -> (r: ImageData)
        ensures
            r@ == self@,
    {
        let path = self.path.clone();
        let data = vstd::slice::slice_to_vec(self.data.as_slice());
        ImageData { path, width: self.width, height: self.height, data }
    }
}

/// Hand state with multiple animation frames.
#[derive(Debug, Clone)]
pub struct HandData {
    pub up_image: ImageData,
    pub frame_images: Vec<ImageData>,
}

pub ghost struct HandModel {
    pub up: ImageModel,
    pub frames: Seq<ImageModel>,
}

impl View for HandData {
    type V = HandModel;

    open spec fn view(&self) -> HandModel {
        HandModel { up: self.up_image@, frames: self.frame_images@.map_values(|d: ImageData| d@) }
    }
}

/// Images of a string-keyed map, as models.
pub open spec fn named_image_models(m: Map<Seq<char>, ImageData>) -> Map<Seq<char>, ImageModel> {
    m.map_values(|d: ImageData| d@)
}

/// Whether `m` is the message of a failed image load.
pub open spec fn is_load_failure_text(m: Seq<char>) -> bool {
    m.len() >= 22 && m.subrange(0, 22) == "Failed to load image: "@
}

/// Every image in the store carries the path it is stored under and holds
/// four bytes per pixel, and every failure message is that of a failed
/// image load.
pub open spec fn store_well_formed(m: Map<Seq<char>, Result<ImageData, String>>) -> bool {
    forall|p: Seq<char>|
        #[trigger] m.contains_key(p) ==> match m[p] {
            Ok(d) => d.path@ == p && d.pixels_fit(),
            Err(msg) => is_load_failure_text(msg@),
        }
}

/// The outcome of loading each image file that a load may look up, by
/// path: the decoded image, or the message of the failed load.
pub struct ImageStore {
    outcomes: StrMap<Result<ImageData, String>>,
}

impl View for ImageStore {
    type V = Map<Seq<char>, Result<ImageData, String>>;

    closed spec fn view(&self) -> Map<Seq<char>, Result<ImageData, String>> {
        self.outcomes@
    }
}

impl ImageStore {
    /// Each image is stored under its own path, with four bytes per pixel,
    /// and each failure under the message of a failed load.
    #[verifier::type_invariant]
    pub open spec fn well_formed(&self) -> bool {
        store_well_formed(self@)
    }

    /// An empty store.
    pub fn new() -> (r: Self)
        ensures
            r@ == Map::<Seq<char>, Result<ImageData, String>>::empty(),
    {
        ImageStore { outcomes: StrMap::new() }
    }

    /// The number of paths with an outcome.
    pub fn len(&self) -> (n: usize)
        ensures
            n == self@.dom().len(),
    {
        self.outcomes.len()
    }

    pub fn contains_key(&self, path: &str) -> (b: bool)
        ensures
            b == self@.contains_key(path@),
    {
        self.outcomes.contains_key(path)
    }

    /// The outcome of loading `path`, if it was loaded.
    pub fn get(&self, path: &str) -> (r: Option<&Result<ImageData, String>>)
        ensures
            match r {
                Some(v) => self@.contains_key(path@) && *v == self@[path@],
                None => !self@.contains_key(path@),
            },
    {
        self.outcomes.get(path)
    }

    /// Records `img` as the image at its own path, if it holds four bytes
    /// per pixel; otherwise leaves the store as it is.
    pub fn insert_image(&mut self, img: ImageData) -> (added: bool)
        ensures
            added == img.pixels_fit(),
            added ==> final(self)@ == old(self)@.insert(img.path@, Ok::<ImageData, String>(img)),
            !added ==> final(self)@ == old(self)@,
    {
        let ghost w = img.width as int;
        let ghost h = img.height as int;
        assert(0 <= w * h && w * h <= 4 * w * h && 4 * w * h == (w * h) * 4) by (nonlinear_arith)
            requires
                0 <= w,
                0 <= h,
        ;
        let len = img.data.len();
        let wu = img.width as usize;
        let hu = img.height as usize;
        assert(wu == w && hu == h);
        let fits = match wu.checked_mul(hu) {
            Some(pixels) => {
                assert(pixels == w * h);
                match pixels.checked_mul(4) {
                    Some(bytes) => {
                        assert(bytes == 4 * w * h);
                        len == bytes
                    },
                    None => {
                        assert(4 * w * h > usize::MAX);
                        false
                    },
                }
            },
            None => {
                assert(4 * w * h > usize::MAX);
                false
            },
        };
        assert(fits == img.pixels_fit());
        if fits {
            proof {
                use_type_invariant(&*self);
            }
            let ghost before = self.outcomes@;
            let ghost key = img.path@;
            let mut outcomes = StrMap::new();
            std::mem::swap(&mut outcomes, &mut self.outcomes);
            outcomes.insert(img.path.clone(), Ok(img));
            assert(store_well_formed(outcomes@)) by {
                assert forall|p: Seq<char>| #[trigger] outcomes@.contains_key(p) implies match outcomes@[p] {
                    Ok(d) => d.path@ == p && d.pixels_fit(),
                    Err(msg) => is_load_failure_text(msg@),
                } by {
                    if p != key {
                        assert(before.contains_key(p));
                    }
                }
            }
            self.outcomes = outcomes;
        }
        fits
    }

    /// Records that loading `path` failed with `reason`: the message stored
    /// is "Failed to load image: " followed by `reason`.
    pub fn insert_failure(&mut self, path: String, reason: &str)
        ensures
            final(self)@.contains_key(path@),
            final(self)@[path@] matches Err(m) && m@ == load_failure_text(reason@),
            final(self)@ == old(self)@.insert(path@, final(self)@[path@]),
    {
        proof {
            use_type_invariant(&*self);
        }
        let m = failure_message(reason);
        proof {
            reveal_strlit("Failed to load image: ");
            assert(m@.subrange(0, 22) =~= "Failed to load image: "@);
        }
        let ghost before = self.outcomes@;
        let ghost key = path@;
        let mut outcomes = StrMap::new();
        std::mem::swap(&mut outcomes, &mut self.outcomes);
        outcomes.insert(path, Err(m));
        assert(store_well_formed(outcomes@)) by {
            assert forall|p: Seq<char>| #[trigger] outcomes@.contains_key(p) implies match outcomes@[p] {
                Ok(d) => d.path@ == p && d.pixels_fit(),
                Err(msg) => is_load_failure_text(msg@),
            } by {
                if p != key {
                    assert(before.contains_key(p));
                }
            }
        }
        self.outcomes = outcomes;
    }
}

/// The outcomes of a store as models: the image, or the failure message.
pub open spec fn outcome_models(m: Map<Seq<char>, Result<ImageData, String>>) -> Map<Seq<char>, Result<ImageModel, Seq<char>>> {
    m.map_values(
        |r: Result<ImageData, String>|
            match r {
                Ok(d) => Ok(d@),
                Err(msg) => Err(msg@),
            },
    )
}

/// The outcome of loading each of `files` (path and content), by path; a
/// later file overrides an earlier one with the same path.
pub open spec fn decoded_outcomes(files: Seq<(String, Vec<u8>)>) -> Map<Seq<char>, Result<ImageModel, Seq<char>>>
    decreases files.len(),
{
    if files.len() == 0 {
        Map::empty()
    } else {
        decoded_outcomes(files.drop_last()).insert(files.last().0@, image_outcome(files.last().0@, files.last().1@))
    }
}

/// The store of what loading each of `files` (path and content) gives.
pub fn decode_images(files: &Vec<(String, Vec<u8>)>) -> (store: ImageStore)
    ensures
        outcome_models(store@) == decoded_outcomes(files@),
{
    let mut store = ImageStore::new();
    assert(outcome_models(store@) =~= Map::empty());
    for i in 0..files.len()
        invariant
            outcome_models(store@) == decoded_outcomes(files@.take(i as int)),
    {
        assert(files@.take(i + 1).drop_last() =~= files@.take(i as int));
        let (path, bytes) = &files[i];
        let ghost before = store@;
        match decode_rgba8(path.as_str(), bytes.as_slice()) {
            Ok((width, height, data)) => {
                let added = store.insert_image(ImageData { path: path.clone(), width, height, data });
                assert(added);
            },
            Err(e) => {
                store.insert_failure(path.clone(), e.as_str());
            },
        }
        assert(outcome_models(store@) =~= outcome_models(before).insert(path@, image_outcome(path@, bytes@)));
    }
    assert(files@.take(files@.len() as int) =~= files@);
    store
}

/// The image at `path` in `store`, if it was loaded.
pub open spec fn stored_image(store: Map<Seq<char>, Result<ImageData, String>>, path: Seq<char>) -> Option<ImageModel> {
    if store.contains_key(path) {
        match store[path] {
            Ok(d) => Some(d@),
            Err(_) => None,
        }
    } else {
        None
    }
}

/// The message of loading `path` from `store` when it did not load: the
/// stored message, or, for a path the store does not hold (it was not read),
/// "Failed to load image: " followed by the path.
pub open spec fn load_error_text(store: Map<Seq<char>, Result<ImageData, String>>, path: Seq<char>) -> Seq<char> {
    if store.contains_key(path) && store[path] is Err {
        store[path]->Err_0@
    } else {
        load_failure_text(path)
    }
}

pub open spec fn image_option_view(o: Option<ImageData>) -> Option<ImageModel> {
    match o {
        Some(d) => Some(d@),
        None => None,
    }
}

pub open spec fn hand_option_view(o: Option<HandData>) -> Option<HandModel> {
    match o {
        Some(h) => Some(h@),
        None => None,
    }
}

/// Loads the image at `path` from the store: a copy of it, or the error of
/// its failed load.
pub fn fetch_image(store: &ImageStore, path: &str) -> (r: Result<ImageData, LoadError>)
    ensures
        match r {
            Ok(d) => stored_image(store@, path@) == Some(d@) && d.path@ == path@ && d.pixels_fit(),
            Err(e) => stored_image(store@, path@) is None && (e matches LoadError::InvalidConfig(m) && m@
                == load_error_text(store@, path@)),
        },
{
    proof {
        use_type_invariant(store);
    }
    match store.get(path) {
        Some(Ok(img)) => Ok(img.copy()),
        Some(Err(m)) => Err(LoadError::InvalidConfig(m.clone())),
        None => Err(LoadError::InvalidConfig(failure_message(path))),
    }
}

} // verus!
