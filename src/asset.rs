//! Decoded images and the in-memory set of files an avatar is loaded from.
use vstd::prelude::*;

use crate::error::LoadError;

verus! {

/// What an image is: its source path, its size, and its RGBA8 pixels.
pub struct ImageView {
    pub path: Seq<char>,
    pub width: u32,
    pub height: u32,
    pub data: Seq<u8>,
}

/// A decoded image: RGBA8 pixels, row by row from the top-left corner.
#[derive(Debug, Clone)]
pub struct ImageData {
    pub path: String,
    pub width: u32,
    pub height: u32,
    pub data: Vec<u8>,
}

impl View for ImageData {
    type V = ImageView;

    open spec fn view(&self) -> ImageView {
        ImageView { path: self.path@, width: self.width, height: self.height, data: self.data@ }
    }
}

/// The pixel buffer holds exactly four bytes per pixel.
pub open spec fn image_view_wf(i: ImageView) -> bool {
    i.data.len() == 4 * i.width * i.height
}

impl ImageData {
    /// The pixel buffer holds exactly four bytes per pixel.
    pub open spec fn wf(&self) -> bool {
        image_view_wf(self@)
    }

    /// Decodes the contents of the image file at `path`; bytes that are no
    /// image the decoder reads are `InvalidConfig`.
    pub fn load(path: &str, bytes: &[u8]) -> (r: Result<ImageData, LoadError>)
        ensures
            match r {
                Ok(img) => img.wf() && image_from_bytes(path@, bytes@) == Some(img@),
                Err(e) => image_from_bytes(path@, bytes@) is None && e is InvalidConfig,
            },
    {
        match decode_rgba(bytes) {
            Ok((width, height, data)) => Ok(ImageData { path: path.to_string(), width, height, data }),
            Err(msg) => Err(LoadError::InvalidConfig(msg)),
        }
    }
}

/// What the image decoder makes of a file's bytes: width, height and RGBA8
/// pixels, or nothing where the bytes are no image it can read.
pub uninterp spec fn decoded_rgba(bytes: Seq<u8>) -> Option<(u32, u32, Seq<u8>)>;

/// Relies on `image::load_from_memory` (format guessed from the bytes) and
/// `DynamicImage::to_rgba8`, whose buffer holds four bytes per pixel; the
/// error is kept as its message.
#[verifier::external_body]
fn decode_rgba(bytes: &[u8]) -> (r: Result<(u32, u32, Vec<u8>), String>)
    ensures
        match r {
            Ok((w, h, d)) => decoded_rgba(bytes@) == Some((w, h, d@)) && d@.len() == 4 * w * h,
            Err(_) => decoded_rgba(bytes@) is None,
        },
{
    match ::image::load_from_memory(bytes) {
        Ok(img) => {
            let rgba = img.to_rgba8();
            Ok((rgba.width(), rgba.height(), rgba.into_raw()))
        },
        Err(e) => Err(e.to_string()),
    }
}

/// The image that `bytes` decode to, read from `path`.
pub open spec fn image_from_bytes(path: Seq<char>, bytes: Seq<u8>) -> Option<ImageView> {
    match decoded_rgba(bytes) {
        Some((w, h, d)) => Some(ImageView { path, width: w, height: h, data: d }),
        None => None,
    }
}

/// A file read from disk: its path and its contents.
#[derive(Debug, Clone)]
pub struct AssetFile {
    pub path: String,
    pub contents: Vec<u8>,
}

/// The files an avatar is loaded from, each under the path it was read at.
/// A path added twice refers to the later contents.
#[derive(Debug, Clone)]
pub struct AssetFiles {
    pub files: Vec<AssetFile>,
}

/// The contents stored under `path` in a sequence of files: the last entry wins.
pub open spec fn file_lookup(files: Seq<(Seq<char>, Seq<u8>)>, path: Seq<char>) -> Option<Seq<u8>>
    decreases files.len(),
{
    if files.len() == 0 {
        None
    } else if files.last().0 == path {
        Some(files.last().1)
    } else {
        file_lookup(files.drop_last(), path)
    }
}

/// The image at `path`, where such a file exists and decodes.
pub open spec fn image_at(files: Seq<(Seq<char>, Seq<u8>)>, path: Seq<char>) -> Option<ImageView> {
    match file_lookup(files, path) {
        Some(bytes) => image_from_bytes(path, bytes),
        None => None,
    }
}

/// A path below a directory: the two joined by `/`, or the name alone
/// below the empty directory.
pub open spec fn joined(dir: Seq<char>, name: Seq<char>) -> Seq<char> {
    if dir.len() == 0 {
        name
    } else {
        dir + "/"@ + name
    }
}

impl View for AssetFiles {
    type V = Seq<(Seq<char>, Seq<u8>)>;

    open spec fn view(&self) -> Seq<(Seq<char>, Seq<u8>)> {
        self.files@.map_values(|f: AssetFile| (f.path@, f.contents@))
    }
}

impl AssetFiles {
    pub fn new() -> (r: AssetFiles)
        ensures
            r@ == Seq::<(Seq<char>, Seq<u8>)>::empty(),
    {
        let r = AssetFiles { files: Vec::new() };
        assert(r@ =~= Seq::<(Seq<char>, Seq<u8>)>::empty());
        r
    }

    /// Records the contents of the file at `path`.
    pub fn add(&mut self, path: String, contents: Vec<u8>)
        ensures
            final(self)@ == old(self)@.push((path@, contents@)),
    {
        let ghost entry = (path@, contents@);
        self.files.push(AssetFile { path, contents });
        assert(self@ =~= old(self)@.push(entry));
    }

    /// The contents of the file at `path`.
    pub fn get(&self, path: &str) -> (r: Option<&Vec<u8>>)
        ensures
            match r {
                Some(b) => file_lookup(self@, path@) == Some(b@),
                None => file_lookup(self@, path@) is None,
            },
    {
        let ghost s = self@;
        let mut i: usize = self.files.len();
        assert(s.subrange(0, i as int) =~= s);
        while i > 0
            invariant
                i <= self.files@.len(),
                s == self@,
                file_lookup(s, path@) == file_lookup(s.subrange(0, i as int), path@),
            decreases i,
        {
            let ghost t = s.subrange(0, i as int);
            assert(t.drop_last() =~= s.subrange(0, i - 1));
            assert(t.last() == s[i - 1]);
            let f = &self.files[i - 1];
            if crate::keys::same_text(f.path.as_str(), path) {
                return Some(&f.contents);
            }
            i = i - 1;
        }
        assert(s.subrange(0, 0) =~= Seq::<(Seq<char>, Seq<u8>)>::empty());
        None
    }

    /// Decodes the image file at `path`: `MissingFile` where there is no such
    /// file, `InvalidConfig` where its bytes do not decode.
    pub fn load_image(&self, path: &str) -> (r: Result<ImageData, LoadError>)
        ensures
            match r {
                Ok(img) => img.wf() && image_at(self@, path@) == Some(img@),
                Err(e) => image_at(self@, path@) is None && (match e {
                    LoadError::MissingFile(p) => p@ == path@ && file_lookup(self@, path@) is None,
                    LoadError::InvalidConfig(_) => file_lookup(self@, path@) is Some,
                    _ => false,
                }),
            },
    {
        match self.get(path) {
            None => Err(LoadError::MissingFile(path.to_string())),
            Some(bytes) => ImageData::load(path, bytes.as_slice()),
        }
    }
}

/// Joins a directory and a relative name with `/`.
pub fn join_path(dir: &str, name: &str) -> (r: String)
    ensures
        r@ == joined(dir@, name@),
{
    if dir.unicode_len() == 0 {
        name.to_string()
    } else {
        let r = dir.to_string().concat("/");
        r.concat(name)
    }
}

} // verus!
