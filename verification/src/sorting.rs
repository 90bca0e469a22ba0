use crate::text::{
    all_ascii, ascii_lower, contains_chars, contains_seq, extension, extension_of_name, file_name,
    is_plain_name, path_extension_of, path_file_name_of, str_eq, str_to_lowercase, to_chars,
    to_lowercase,
};
use vstd::prelude::*;

verus! {

/// Sort field for image browsing
#[derive(Debug, Clone, Copy, PartialEq, Eq, Structural)]
pub enum SortField {
    Name,
    Size,
    Date,
    Resolution,
    ColorProfile,
    Random,
}

/// Sort direction
#[derive(Debug, Clone, Copy, PartialEq, Eq, Structural)]
pub enum SortDirection {
    Ascending,
    Descending,
}

/// Image orientation filter
#[derive(Debug, Clone, Copy, PartialEq, Eq, Structural)]
pub enum Orientation {
    Landscape,
    Portrait,
    Square,
    Panoramic,
}

/// The file extensions that the browser treats as images, in lowercase.
pub open spec fn supported_extension_list() -> Seq<Seq<char>> {
    seq![
        "png"@, "jpg"@, "jpeg"@, "gif"@, "bmp"@, "tiff"@, "tif"@,
        "webp"@, "ico"@, "avif"@, "heic"@, "heif"@, "svg"@,
        "cr2"@, "cr3"@, "nef"@, "arw"@, "dng"@, "raf"@, "orf"@, "rw2"@, "pef"@, "raw"@,
        "qoi"@, "exr"@, "hdr"@, "dds"@, "tga"@,
    ]
}

/// Supported image file extensions for browsing, in lowercase.
pub fn supported_extensions() -> (r: Vec<&'static str>)
    ensures
        r@.len() == supported_extension_list().len(),
        forall|i: int| 0 <= i < r@.len() ==> #[trigger] r@[i]@ == supported_extension_list()[i],
{
    let r = vec![
        "png", "jpg", "jpeg", "gif", "bmp", "tiff", "tif",
        "webp", "ico", "avif", "heic", "heif", "svg",
        "cr2", "cr3", "nef", "arw", "dng", "raf", "orf", "rw2", "pef", "raw",
        "qoi", "exr", "hdr", "dds", "tga",
    ];
    r
}

/// Whether `ext` (already lowercase) is one of the supported extensions.
pub fn is_supported_extension(ext: &str) -> (r: bool)
    ensures
        r == supported_extension_list().contains(ext@),
{
    let list = supported_extensions();
    let mut i: usize = 0;
    while i < list.len()
        invariant
            list@.len() == supported_extension_list().len(),
            forall|j: int| 0 <= j < list@.len() ==> #[trigger] list@[j]@ == supported_extension_list()[j],
            i <= list.len(),
            forall|j: int| 0 <= j < i ==> supported_extension_list()[j] != ext@,
        decreases list.len() - i,
    {
        if str_eq(list[i], ext) {
            assert(supported_extension_list()[i as int] == ext@);
            return true;
        }
        i = i + 1;
    }
    false
}

/// Whether a path names a supported image: its extension, lowercased, is supported.
pub open spec fn spec_is_supported_image(path: Seq<char>) -> bool {
    match path_extension_of(path) {
        Some(e) => supported_extension_list().contains(str_to_lowercase(e)),
        None => false,
    }
}

/// Whether a plain ASCII file name names a supported image: the text after its last `.`
/// (not counting a leading one), with ASCII capitals made small, is supported.
pub open spec fn plain_name_is_supported(name: Seq<char>) -> bool {
    match extension_of_name(name) {
        Some(e) => supported_extension_list().contains(ascii_lower(e)),
        None => false,
    }
}

/// Check if a file extension is a supported image format
pub fn is_supported_image(path: &str) -> (r: bool)
    ensures
        r == spec_is_supported_image(path@),
        is_plain_name(path@) && all_ascii(path@) ==> r == plain_name_is_supported(path@),
{
    match extension(path) {
        Some(e) => {
            proof {
                if is_plain_name(path@) && all_ascii(path@) {
                    lemma_extension_is_ascii(path@);
                }
            }
            let lower = to_lowercase(e.as_str());
            is_supported_extension(lower.as_str())
        },
        None => false,
    }
}

/// A name with a `.` past its first character has a last such `.`.
pub proof fn lemma_last_dot_exists(name: Seq<char>, i0: int)
    requires
        0 < i0 < name.len(),
        name[i0] == '.',
    ensures
        exists|k: int|
            0 < k < name.len() && name[k] == '.' && forall|j: int|
                k < j < name.len() ==> name[j] != '.',
    decreases name.len() - i0,
{
    if exists|j: int| i0 < j < name.len() && name[j] == '.' {
        let j = choose|j: int| i0 < j < name.len() && name[j] == '.';
        lemma_last_dot_exists(name, j);
    } else {
        assert(0 < i0 < name.len() && name[i0] == '.' && forall|j: int|
            i0 < j < name.len() ==> name[j] != '.');
    }
}

/// The extension of an ASCII name is ASCII.
pub proof fn lemma_extension_is_ascii(name: Seq<char>)
    requires
        all_ascii(name),
    ensures
        extension_of_name(name) matches Some(e) ==> all_ascii(e),
{
    if exists|i: int| 0 < i < name.len() && name[i] == '.' {
        let i0 = choose|i: int| 0 < i < name.len() && name[i] == '.';
        lemma_last_dot_exists(name, i0);
        let k = choose|k: int|
            0 < k < name.len() && name[k] == '.' && forall|j: int|
                k < j < name.len() ==> name[j] != '.';
        let e = name.subrange(k + 1, name.len() as int);
        assert(extension_of_name(name) == Some(e));
        assert forall|i: int| 0 <= i < e.len() implies (#[trigger] e[i] as u32) < 128 by {
            assert(e[i] == name[k + 1 + i]);
            assert((name[k + 1 + i] as u32) < 128);
        }
    }
}

/// The lowercased extension of a path, or the empty text when it has none.
pub open spec fn extension_key(path: Seq<char>) -> Seq<char> {
    match path_extension_of(path) {
        Some(e) => str_to_lowercase(e),
        None => Seq::empty(),
    }
}

/// The file name of a path, or the empty text when it has none.
pub open spec fn name_or_empty(path: Seq<char>) -> Seq<char> {
    match path_file_name_of(path) {
        Some(n) => n,
        None => Seq::empty(),
    }
}

/// What the filter reads of an image besides its path: its size in pixels and, where it is
/// known, when it was last modified (seconds since the Unix epoch).
#[derive(Debug, Clone, Copy)]
pub struct ImageFacts {
    pub width: u32,
    pub height: u32,
    pub modified: Option<i64>,
}

/// Whether an image of the given size has the orientation: wider than high (landscape),
/// higher than wide (portrait), as wide as high (square), or at least twice as wide as
/// high (panoramic).
pub open spec fn has_orientation(o: Orientation, width: u32, height: u32) -> bool {
    match o {
        Orientation::Landscape => width > height,
        Orientation::Portrait => height > width,
        Orientation::Square => width == height,
        Orientation::Panoramic => width >= 2 * height,
    }
}

/// Image filter criteria
#[derive(Debug, Clone)]
pub struct ImageFilter {
    /// Filter by file type (extension)
    pub file_types: Vec<String>,
    /// Filter by minimum width
    pub min_width: Option<u32>,
    /// Filter by maximum width
    pub max_width: Option<u32>,
    /// Filter by minimum height
    pub min_height: Option<u32>,
    /// Filter by maximum height
    pub max_height: Option<u32>,
    /// Filter by orientation
    pub orientation: Option<Orientation>,
    /// Filter by date range (start timestamp)
    pub date_from: Option<i64>,
    /// Filter by date range (end timestamp)
    pub date_to: Option<i64>,
    /// Search query for filename
    pub search_query: Option<String>,
}

impl ImageFilter {
    /// The extensions that the filter accepts, as text.
    pub open spec fn type_views(&self) -> Seq<Seq<char>> {
        self.file_types@.map_values(|t: String| t@)
    }

    /// Whether a path passes the file type and name criteria: its lowercased extension is
    /// among the file types (when any are given), and its lowercased file name contains the
    /// lowercased query (when one is given).
    pub open spec fn path_matches(&self, path: Seq<char>) -> bool {
        &&& (self.file_types@.len() == 0 || self.type_views().contains(extension_key(path)))
        &&& match self.search_query {
            Some(q) => contains_seq(str_to_lowercase(name_or_empty(path)), str_to_lowercase(q@)),
            None => true,
        }
    }

    /// Whether an image passes the size, orientation and date criteria. A criterion that is
    /// set is met only where the facts it reads are known.
    pub open spec fn facts_match(&self, facts: Option<ImageFacts>) -> bool {
        &&& (self.min_width matches Some(m) ==> (facts matches Some(f) && f.width >= m))
        &&& (self.max_width matches Some(m) ==> (facts matches Some(f) && f.width <= m))
        &&& (self.min_height matches Some(m) ==> (facts matches Some(f) && f.height >= m))
        &&& (self.max_height matches Some(m) ==> (facts matches Some(f) && f.height <= m))
        &&& (self.orientation matches Some(o) ==> (facts matches Some(f) && has_orientation(
            o,
            f.width,
            f.height,
        )))
        &&& (self.date_from matches Some(d) ==> (facts matches Some(f) && f.modified matches Some(
            t,
        ) && t >= d))
        &&& (self.date_to matches Some(d) ==> (facts matches Some(f) && f.modified matches Some(t)
            && t <= d))
    }

    /// Whether an image passes every criterion of the filter.
    pub open spec fn spec_matches(&self, path: Seq<char>, facts: Option<ImageFacts>) -> bool {
        self.path_matches(path) && self.facts_match(facts)
    }

    /// Whether the filter is the one that lets everything through.
    pub open spec fn is_empty_filter(&self) -> bool {
        &&& self.file_types@.len() == 0
        &&& self.min_width is None
        &&& self.max_width is None
        &&& self.min_height is None
        &&& self.max_height is None
        &&& self.orientation is None
        &&& self.date_from is None
        &&& self.date_to is None
        &&& self.search_query is None
    }

    /// Create a default (no filter) filter
    pub fn new() -> (r: Self)
        ensures
            r.is_empty_filter(),
    {
        ImageFilter {
            file_types: Vec::new(),
            min_width: None,
            max_width: None,
            min_height: None,
            max_height: None,
            orientation: None,
            date_from: None,
            date_to: None,
            search_query: None,
        }
    }

    /// Apply the filter to a list of images, each a path with what is known of it, keeping
    /// the paths of those that match, in their order.
    pub fn apply(&self, images: Vec<(String, Option<ImageFacts>)>) -> (r: Vec<String>)
        ensures
            r@ == images@.filter(|c: (String, Option<ImageFacts>)| self.spec_matches(c.0@, c.1)).map_values(
                |c: (String, Option<ImageFacts>)| c.0,
            ),
    {
        let mut r: Vec<String> = Vec::new();
        let mut i: usize = 0;
        while i < images.len()
            invariant
                i <= images.len(),
                r@ == images@.subrange(0, i as int).filter(
                    |c: (String, Option<ImageFacts>)| self.spec_matches(c.0@, c.1),
                ).map_values(|c: (String, Option<ImageFacts>)| c.0),
            decreases images.len() - i,
        {
            let ghost before = images@.subrange(0, i as int);
            assert(images@.subrange(0, i + 1) =~= before.push(images@[i as int]));
            reveal_with_fuel(Seq::filter, 1);
            assert(before.push(images@[i as int]).drop_last() =~= before);
            let ghost kept = before.filter(
                |c: (String, Option<ImageFacts>)| self.spec_matches(c.0@, c.1),
            );
            if self.matches(images[i].0.as_str(), images[i].1) {
                r.push(images[i].0.clone());
                assert(kept.push(images@[i as int]).map_values(
                    |c: (String, Option<ImageFacts>)| c.0,
                ) =~= kept.map_values(|c: (String, Option<ImageFacts>)| c.0).push(images@[i as int].0));
            }
            i = i + 1;
        }
        assert(images@.subrange(0, images@.len() as int) =~= images@);
        r
    }

    /// Whether the known facts of an image meet the size, orientation and date criteria.
    fn facts_pass(&self, facts: Option<ImageFacts>) -> (r: bool)
        ensures
            r == self.facts_match(facts),
    {
        let f = match facts {
            Some(f) => f,
            None => {
                return self.min_width.is_none() && self.max_width.is_none()
                    && self.min_height.is_none() && self.max_height.is_none()
                    && self.orientation.is_none() && self.date_from.is_none()
                    && self.date_to.is_none();
            },
        };
        if let Some(m) = self.min_width {
            if f.width < m {
                return false;
            }
        }
        if let Some(m) = self.max_width {
            if f.width > m {
                return false;
            }
        }
        if let Some(m) = self.min_height {
            if f.height < m {
                return false;
            }
        }
        if let Some(m) = self.max_height {
            if f.height > m {
                return false;
            }
        }
        if let Some(o) = self.orientation {
            let ok = match o {
                Orientation::Landscape => f.width > f.height,
                Orientation::Portrait => f.height > f.width,
                Orientation::Square => f.width == f.height,
                Orientation::Panoramic => f.width as u64 >= 2 * (f.height as u64),
            };
            if !ok {
                return false;
            }
        }
        if let Some(d) = self.date_from {
            match f.modified {
                Some(t) => {
                    if t < d {
                        return false;
                    }
                },
                None => {
                    return false;
                },
            }
        }
        if let Some(d) = self.date_to {
            match f.modified {
                Some(t) => {
                    if t > d {
                        return false;
                    }
                },
                None => {
                    return false;
                },
            }
        }
        true
    }

    /// Check if an image, given by its path and what is known of it, matches all filter
    /// criteria
    pub fn matches(&self, path: &str, facts: Option<ImageFacts>) -> (r: bool)
        ensures
            r == self.spec_matches(path@, facts),
    {
        if !self.facts_pass(facts) {
            return false;
        }
        if self.file_types.len() > 0 {
            let ext = match extension(path) {
                Some(e) => to_lowercase(e.as_str()),
                None => String::new(),
            };
            let mut found = false;
            let mut i: usize = 0;
            while i < self.file_types.len()
                invariant
                    i <= self.file_types.len(),
                    ext@ == extension_key(path@),
                    found == exists|j: int| 0 <= j < i && self.file_types@[j]@ == ext@,
                decreases self.file_types.len() - i,
            {
                if str_eq(self.file_types[i].as_str(), ext.as_str()) {
                    found = true;
                }
                i = i + 1;
            }
            assert(found == self.type_views().contains(ext@)) by {
                if found {
                    let j = choose|j: int| 0 <= j < self.file_types@.len() && self.file_types@[j]@ == ext@;
                    assert(self.type_views()[j] == ext@);
                }
                if self.type_views().contains(ext@) {
                    let j = choose|j: int| 0 <= j < self.type_views().len() && self.type_views()[j] == ext@;
                    assert(self.file_types@[j]@ == ext@);
                }
            }
            if !found {
                return false;
            }
        }
        match &self.search_query {
            Some(query) => {
                let name = match file_name(path) {
                    Some(n) => n,
                    None => String::new(),
                };
                let name_lower = to_chars(to_lowercase(name.as_str()).as_str());
                let query_lower = to_chars(to_lowercase(query.as_str()).as_str());
                contains_chars(&name_lower, &query_lower)
            },
            None => true,
        }
    }
}

/// A filter with no criteria keeps every image: applying it gives back every path, in order.
pub proof fn law_empty_filter_keeps_everything(f: ImageFilter, images: Seq<(String, Option<ImageFacts>)>)
    requires
        f.is_empty_filter(),
    ensures
        images.filter(|c: (String, Option<ImageFacts>)| f.spec_matches(c.0@, c.1)).map_values(
            |c: (String, Option<ImageFacts>)| c.0,
        ) == images.map_values(|c: (String, Option<ImageFacts>)| c.0),
    decreases images.len(),
{
    let pred = |c: (String, Option<ImageFacts>)| f.spec_matches(c.0@, c.1);
    if images.len() > 0 {
        let init = images.drop_last();
        law_empty_filter_keeps_everything(f, init);
        assert(images =~= init.push(images.last()));
        reveal_with_fuel(Seq::filter, 1);
        assert(images.filter(pred) =~= init.filter(pred).push(images.last()));
        let m = |c: (String, Option<ImageFacts>)| c.0;
        let fi = init.filter(pred);
        assert(fi.map_values(m) == init.map_values(m));
        assert(fi.push(images.last()).map_values(m) =~= fi.map_values(m).push(images.last().0));
        assert(images.map_values(m) =~= init.map_values(m).push(images.last().0));
    } else {
        assert(images.filter(pred) =~= images);
    }
}

impl Default for ImageFilter {
    fn default() -> (r: Self)
        ensures
            r.is_empty_filter(),
    {
        Self::new()
    }
}

} // verus!
