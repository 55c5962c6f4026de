//! Thumbnails-related models.
use vstd::prelude::*;
use vstd::string::StringExecFns;

verus! {

broadcast use vstd::string::group_string_axioms;

/// Represents a thumbnail of a YouTube video.
#[derive(Debug, Clone, PartialEq, Eq, Hash)]
pub struct Thumbnail {
    /// The URL of the thumbnail.
    pub url: String,
    /// The preference index of the thumbnail, e.g. '-35' or '0'.
    pub preference: i64,
    /// The ID of the thumbnail.
    pub id: String,
    /// The height of the thumbnail, can be `None`.
    pub height: Option<i64>,
    /// The width of the thumbnail, can be `None`.
    pub width: Option<i64>,
    /// The resolution of the thumbnail, can be `None`, e.g. '1920x1080'.
    pub resolution: Option<String>,
}

impl Thumbnail {
    /// Whether both dimensions are known.
    pub open spec fn has_dimensions(self) -> bool {
        self.width is Some && self.height is Some
    }

    /// The pixel area `width × height`, each defaulting to 0.
    pub open spec fn area(self) -> int {
        let w: int = match self.width {
            Some(w) => w as int,
            None => 0,
        };
        let h: int = match self.height {
            Some(h) => h as int,
            None => 0,
        };
        w * h
    }

    /// The area fits an `i64`, so that computing it does not overflow.
    pub open spec fn area_fits(self) -> bool {
        i64::MIN <= self.area() <= i64::MAX
    }

    /// The text that `Display` gives a thumbnail:
    /// `Thumbnail(id=<id>, resolution=<resolution or "unknown">)`.
    pub open spec fn display(self) -> Seq<char> {
        "Thumbnail(id="@ + self.id@ + ", resolution="@ + match self.resolution {
            Some(r) => r@,
            None => "unknown"@,
        } + ")"@
    }

    /// Renders the thumbnail as `Display` does.
    pub fn to_string(&self) -> (r: String)
        ensures
            r@ == self.display(),
    {
        let mut s = String::from_str("Thumbnail(id=");
        s.append(self.id.as_str());
        s.append(", resolution=");
        match &self.resolution {
            Some(r) => s.append(r.as_str()),
            None => s.append("unknown"),
        }
        s.append(")");
        s
    }
}

} // verus!
