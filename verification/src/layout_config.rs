//! The persisted configuration record of one overlay window.

use vstd::prelude::*;
use vstd::string::StringExecFns;

verus! {

/// What `str::to_lowercase` returns for the given characters.  The Unicode
/// lowercase mapping is far too large to restate here; the name only records
/// that the result depends on the input characters alone.
pub uninterp spec fn lower_of(s: Seq<char>) -> Seq<char>;

/// The space-to-hyphen pass of the file-name transform.
pub open spec fn hyphenated(s: Seq<char>) -> Seq<char> {
    s.map_values(|c: char| if c == ' ' { '-' } else { c })
}

/// The file name a record called `name` is stored under: the name with
/// spaces turned to hyphens, lowercased, and the extension appended.
pub open spec fn file_name_of(name: Seq<char>) -> Seq<char> {
    lower_of(hyphenated(name)) + ".yaml"@
}

/// Relies on `str::replace` with a space pattern and a single-hyphen
/// replacement: every space becomes a hyphen and every other character is
/// kept as it is.
#[verifier::external_body]
fn replace_spaces(s: &str) -> (r: String)
    ensures
        r@ == hyphenated(s@),
{
    s.replace(' ', "-")
}

/// Relies on `str::to_lowercase`: the result is a function of the input
/// characters alone, and an empty string stays empty.
#[verifier::external_body]
fn lowercase(s: &str) -> (r: String)
    ensures
        r@ == lower_of(s@),
        s@.len() == 0 ==> r@.len() == 0,
{
    s.to_lowercase()
}

/// Full configuration of one overlay: identity, content source, geometry and
/// the window properties the display system needs.
///
/// `name` doubles as the key of the live-window table and, lowercased and
/// space-hyphenated, as the stem of the record's file name.  `active` records
/// whether the overlay is meant to be on screen; the controller keeps it in
/// step with the live-window table.
#[derive(Debug, Clone, PartialEq)]
pub struct LayoutConfig {
    pub name: String,
    pub url: String,
    pub x: i32,
    pub y: i32,
    pub width: i32,
    pub height: i32,
    pub clickthrough: bool,
    pub decorated: bool,
    pub active: bool,
}

impl LayoutConfig {
    /// The file this record is stored under, derived from its name.
    pub fn get_file_name(&self) -> (r: String)
        ensures
            r@ == file_name_of(self.name@),
    {
        let hyphened = replace_spaces(self.name.as_str());
        let lowered = lowercase(hyphened.as_str());
        lowered.concat(".yaml")
    }

    pub fn name(&self) -> (r: String)
        ensures
            r@ == self.name@,
    {
        self.name.clone()
    }

    pub fn set_name(&mut self, name: String)
        ensures
            *final(self) == (LayoutConfig { name, ..*old(self) }),
    {
        self.name = name;
    }

    pub fn url(&self) -> (r: String)
        ensures
            r@ == self.url@,
    {
        self.url.clone()
    }

    pub fn set_url(&mut self, url: String)
        ensures
            *final(self) == (LayoutConfig { url, ..*old(self) }),
    {
        self.url = url;
    }

    pub fn x(&self) -> (r: i32)
        ensures
            r == self.x,
    {
        self.x
    }

    pub fn set_x(&mut self, x: i32)
        ensures
            *final(self) == (LayoutConfig { x, ..*old(self) }),
    {
        self.x = x;
    }

    pub fn y(&self) -> (r: i32)
        ensures
            r == self.y,
    {
        self.y
    }

    pub fn set_y(&mut self, y: i32)
        ensures
            *final(self) == (LayoutConfig { y, ..*old(self) }),
    {
        self.y = y;
    }

    pub fn width(&self) -> (r: i32)
        ensures
            r == self.width,
    {
        self.width
    }

    pub fn set_width(&mut self, width: i32)
        ensures
            *final(self) == (LayoutConfig { width, ..*old(self) }),
    {
        self.width = width;
    }

    pub fn height(&self) -> (r: i32)
        ensures
            r == self.height,
    {
        self.height
    }

    pub fn set_height(&mut self, height: i32)
        ensures
            *final(self) == (LayoutConfig { height, ..*old(self) }),
    {
        self.height = height;
    }

    pub fn is_decoraded(&self) -> (r: bool)
        ensures
            r == self.decorated,
    {
        self.decorated
    }

    pub fn set_is_decorated(&mut self, is_decorated: bool)
        ensures
            *final(self) == (LayoutConfig { decorated: is_decorated, ..*old(self) }),
    {
        self.decorated = is_decorated;
    }

    pub fn is_clickthrough(&self) -> (r: bool)
        ensures
            r == self.clickthrough,
    {
        self.clickthrough
    }

    pub fn set_is_clickthrough(&mut self, is_clickthrough: bool)
        ensures
            *final(self) == (LayoutConfig { clickthrough: is_clickthrough, ..*old(self) }),
    {
        self.clickthrough = is_clickthrough;
    }

    pub fn is_active(&self) -> (r: bool)
        ensures
            r == self.active,
    {
        self.active
    }

    pub fn set_active(&mut self, is_active: bool)
        ensures
            *final(self) == (LayoutConfig { active: is_active, ..*old(self) }),
    {
        self.active = is_active;
    }

    /// A field-for-field copy whose contracts callers can rely on, unlike the
    /// derived `Clone`, which Verus does not read.
    pub fn duplicate(&self) -> (r: LayoutConfig)
        ensures
            r == *self,
    {
        LayoutConfig {
            name: self.name.clone(),
            url: self.url.clone(),
            x: self.x,
            y: self.y,
            width: self.width,
            height: self.height,
            clickthrough: self.clickthrough,
            decorated: self.decorated,
            active: self.active,
        }
    }
}

impl Default for LayoutConfig {
    /// The blank record a "new overlay" action puts in front of the user:
    /// empty name and url, zero geometry, every flag off.
    fn default() -> (r: Self)
        ensures
            r.name@ == Seq::<char>::empty(),
            r.url@ == Seq::<char>::empty(),
            r.x == 0 && r.y == 0 && r.width == 0 && r.height == 0,
            !r.clickthrough && !r.decorated && !r.active,
    {
        LayoutConfig {
            name: String::new(),
            url: String::new(),
            x: 0,
            y: 0,
            width: 0,
            height: 0,
            clickthrough: false,
            decorated: false,
            active: false,
        }
    }
}

} // verus!
