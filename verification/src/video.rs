//! The video model (the output of `yt-dlp` for one video) and the choices it
//! offers among its thumbnails and storyboards, its freshness and live state.
use vstd::prelude::*;
use vstd::string::StringExecFns;

use crate::float_order::{float_key_or_zero, order_key_or_zero};
use crate::format::{format_type_of, Format, FormatType, Protocol};
use crate::ranking::{
    any_selected, argmax_last, argmin_first, is_first_min, is_last_max, is_stable_order, key_table, stable_order,
    uniform,
};
use crate::text::{debug_text, decimal, push_decimal, quote_debug, str_eq};
use crate::thumbnail::Thumbnail;

verus! {

broadcast use vstd::string::group_string_axioms;

/// CDN lifetime, in seconds, of YouTube format stream URLs after their
/// `available_at` timestamp (about 6 hours).
pub const FORMAT_URL_LIFETIME: i64 = 6 * 3600;

/// Represents the extractor information.
#[derive(Debug, Clone, PartialEq, Eq, Hash)]
pub struct ExtractorInfo {
    /// The id of the extractor.
    pub extractor: String,
    /// The name of the extractor.
    pub extractor_key: String,
}

/// Represents the version of 'yt-dlp' used to fetch the video.
#[derive(Debug, Clone, PartialEq, Eq, Hash)]
pub struct Version {
    /// The version of 'yt-dlp', e.g. '2024.10.22'.
    pub version: String,
    /// The commit hash of the current 'yt-dlp' version, if not a release.
    pub current_git_head: Option<String>,
    /// The commit hash of the release 'yt-dlp' version.
    pub release_git_head: Option<String>,
    /// The repository of the 'yt-dlp' version used, e.g. 'yt-dlp/yt-dlp'.
    pub repository: String,
}

/// Represents a YouTube video, the output of 'yt-dlp'.
#[derive(Debug, Clone, PartialEq, Eq, Hash)]
pub struct Video {
    /// The ID of the video.
    pub id: String,
    /// The title of the video.
    pub title: String,
    /// The thumbnail URL of the video, usually the highest quality.
    pub thumbnail: Option<String>,
    /// The description of the video.
    pub description: Option<String>,
    /// If the video is public, unlisted, or private.
    pub availability: Option<String>,
    /// The upload date of the video (Unix timestamp).
    pub upload_date: Option<i64>,
    /// The duration of the video in seconds.
    pub duration: Option<i64>,
    /// The duration of the video as a human-readable string, e.g. '41:21'.
    pub duration_string: Option<String>,
    /// The canonical webpage URL of the video.
    pub webpage_url: Option<String>,
    /// The primary language of the video, e.g. 'fr' or 'en'.
    pub language: Option<String>,
    /// The type of media: 'video', 'short', 'podcast', etc.
    pub media_type: Option<String>,
    /// Whether the video is currently a live stream.
    pub is_live: Option<bool>,
    /// Whether the video was originally a live stream.
    pub was_live: Option<bool>,
    /// Unix timestamp of a scheduled premiere or live start time.
    pub release_timestamp: Option<i64>,
    /// Release year, if different from the upload year.
    pub release_year: Option<i64>,
    /// The number of concurrent viewers (live streams only).
    pub concurrent_view_count: Option<i64>,
    /// The number of views the video has.
    pub view_count: Option<i64>,
    /// The number of likes the video has.
    pub like_count: Option<i64>,
    /// The number of comments the video has.
    pub comment_count: Option<i64>,
    /// The channel display name.
    pub channel: Option<String>,
    /// The channel ID, not the @username.
    pub channel_id: Option<String>,
    /// The URL of the channel.
    pub channel_url: Option<String>,
    /// The number of subscribers the channel has.
    pub channel_follower_count: Option<i64>,
    /// The uploader name.
    pub uploader: Option<String>,
    /// The uploader ID.
    pub uploader_id: Option<String>,
    /// The URL of the uploader's profile page.
    pub uploader_url: Option<String>,
    /// Whether the channel has a verified badge.
    pub channel_is_verified: Option<bool>,
    /// The available formats of the video.
    pub formats: Vec<Format>,
    /// The thumbnails of the video.
    pub thumbnails: Vec<Thumbnail>,
    /// The language codes for which automatic captions exist.
    pub automatic_caption_languages: Vec<String>,
    /// The language codes for which subtitles exist.
    pub subtitle_languages: Vec<String>,
    /// The tags of the video.
    pub tags: Vec<String>,
    /// The categories of the video.
    pub categories: Vec<String>,
    /// If the video is age restricted, the age limit is different from 0.
    pub age_limit: i64,
    /// The live status reported by yt-dlp, e.g. 'is_live', 'was_live', 'not_live'.
    pub live_status: String,
    /// If the video is playable in an embed.
    pub playable_in_embed: bool,
    /// The extractor information.
    pub extractor_info: ExtractorInfo,
    /// The version of 'yt-dlp' used to fetch the video.
    pub version: Version,
}

/// A format whose stream URL expires: neither a storyboard nor a manifest,
/// and carrying an `available_at` timestamp.
pub open spec fn expiring(f: Format) -> bool {
    &&& !(format_type_of(f) matches FormatType::Storyboard)
    &&& !(format_type_of(f) matches FormatType::Manifest { .. })
    &&& f.available_at is Some
}

/// The smallest `available_at` among the expiring formats.
pub open spec fn earliest_available_at(fs: Seq<Format>) -> Option<i64>
    decreases fs.len(),
{
    if fs.len() == 0 {
        None
    } else {
        let rest = earliest_available_at(fs.drop_last());
        let f = fs.last();
        if expiring(f) {
            match rest {
                Some(m) => if f.available_at.unwrap() < m {
                    Some(f.available_at.unwrap())
                } else {
                    Some(m)
                },
                None => Some(f.available_at.unwrap()),
            }
        } else {
            rest
        }
    }
}

/// Key of a thumbnail among those with both dimensions: area, then preference.
pub open spec fn thumbnail_area_key(t: Thumbnail) -> Seq<i128> {
    seq![t.area() as i128, t.preference as i128]
}

/// Key of a thumbnail by preference alone.
pub open spec fn thumbnail_preference_key(t: Thumbnail) -> Seq<i128> {
    seq![t.preference as i128]
}

/// Key of a thumbnail by area alone.
pub open spec fn thumbnail_size_key(t: Thumbnail) -> Seq<i128> {
    seq![t.area() as i128]
}

/// A thumbnail with both dimensions, at least `min_width` wide and
/// `min_height` high.
pub open spec fn fits_size(t: Thumbnail, min_width: u32, min_height: u32) -> bool {
    &&& t.width matches Some(w) && w >= min_width
    &&& t.height matches Some(h) && h >= min_height
}

/// Number of storyboard fragments (0 when absent).
pub open spec fn fragment_count(f: Format) -> int {
    match f.storyboard_info.fragments {
        Some(v) => v.len() as int,
        None => 0,
    }
}

/// Pixel area of a format's frames, each dimension defaulting to 0.
pub open spec fn frame_area(f: Format) -> int {
    let w: int = match f.video_resolution.width {
        Some(w) => w as int,
        None => 0,
    };
    let h: int = match f.video_resolution.height {
        Some(h) => h as int,
        None => 0,
    };
    w * h
}

/// Key of a storyboard: fragment count, then frame area.
pub open spec fn storyboard_key(f: Format) -> Seq<i128> {
    seq![fragment_count(f) as i128, frame_area(f) as i128]
}

/// Whether a format is a storyboard.
pub open spec fn is_storyboard(f: Format) -> bool {
    format_type_of(f) matches FormatType::Storyboard
}

/// Key of a live (HLS) format: its total bitrate, absent ones first.
pub open spec fn total_rate_key(f: Format) -> Seq<i128> {
    seq![if f.rates_info.total_rate is Some { 1i128 } else { 0i128 }, float_key_or_zero(f.rates_info.total_rate)]
}

/// Whether a format is delivered over HLS.
pub open spec fn is_hls(f: Format) -> bool {
    f.protocol == Protocol::M3U8Native
}

/// `r` is the reference to the item at position `i` chosen by `pick`, or
/// `None` when `pick` chose nothing.
pub open spec fn picks<T>(items: Seq<T>, pick: Option<usize>, r: Option<&T>) -> bool {
    match pick {
        Some(i) => i < items.len() && r == Some(&items[i as int]),
        None => r is None,
    }
}

/// `r` lists the items at the positions of `order`, in that order.
pub open spec fn lists<T>(items: Seq<T>, order: Seq<usize>, r: Seq<&T>) -> bool {
    &&& r.len() == order.len()
    &&& forall|k: int| 0 <= k < order.len() ==> order[k] < items.len() && *#[trigger] r[k] == items[order[k] as int]
}

/// The references to the items at the positions of `order`.
pub fn collect_refs<'a, T>(items: &'a Vec<T>, order: &Vec<usize>) -> (r: Vec<&'a T>)
    requires
        forall|k: int| 0 <= k < order.len() ==> #[trigger] order@[k] < items.len(),
    ensures
        lists(items@, order@, r@),
{
    let mut r: Vec<&'a T> = Vec::new();
    let mut k: usize = 0;
    while k < order.len()
        invariant
            k <= order.len(),
            forall|m: int| 0 <= m < order.len() ==> #[trigger] order@[m] < items.len(),
            r.len() == k,
            forall|m: int| 0 <= m < k ==> *#[trigger] r@[m] == items@[order@[m] as int],
        decreases order.len() - k,
    {
        r.push(&items[order[k]]);
        k = k + 1;
    }
    r
}

impl Video {
    /// Thumbnails with both dimensions, by position.
    pub open spec fn dimensioned(self) -> Seq<bool> {
        self.thumbnails@.map_values(|t: Thumbnail| t.has_dimensions())
    }

    /// Every thumbnail, by position.
    pub open spec fn all_thumbnails(self) -> Seq<bool> {
        self.thumbnails@.map_values(|t: Thumbnail| true)
    }

    /// Computing the areas of the thumbnails with both dimensions does not overflow.
    pub open spec fn thumbnail_areas_fit(self) -> bool {
        forall|i: int| 0 <= i < self.thumbnails@.len() && (#[trigger] self.thumbnails@[i]).has_dimensions() ==> self.thumbnails@[i].area_fits()
    }

    /// The position of the best thumbnail: the last one of largest area (then
    /// preference) among those with both dimensions, or when none has both,
    /// the last one of highest preference.
    pub open spec fn best_thumbnail_at(self, i: int) -> bool {
        if any_selected(self.dimensioned()) {
            is_last_max(self.thumbnails@.map_values(|t: Thumbnail| thumbnail_area_key(t)), self.dimensioned(), i)
        } else {
            is_last_max(self.thumbnails@.map_values(|t: Thumbnail| thumbnail_preference_key(t)), self.all_thumbnails(), i)
        }
    }

    /// The position of the worst thumbnail: the first one of smallest area
    /// (then preference) among those with both dimensions, or when none has
    /// both, the first one of lowest preference.
    pub open spec fn worst_thumbnail_at(self, i: int) -> bool {
        if any_selected(self.dimensioned()) {
            is_first_min(self.thumbnails@.map_values(|t: Thumbnail| thumbnail_area_key(t)), self.dimensioned(), i)
        } else {
            is_first_min(self.thumbnails@.map_values(|t: Thumbnail| thumbnail_preference_key(t)), self.all_thumbnails(), i)
        }
    }

    /// Thumbnails that satisfy the minimum size, by position.
    pub open spec fn fitting(self, min_width: u32, min_height: u32) -> Seq<bool> {
        self.thumbnails@.map_values(|t: Thumbnail| fits_size(t, min_width, min_height))
    }

    fn thumbnail_keys(&self, by_area: bool) -> (r: (Vec<Vec<i128>>, Vec<bool>))
        requires
            self.thumbnail_areas_fit(),
        ensures
            r.0.len() == self.thumbnails.len(),
            r.1.len() == self.thumbnails.len(),
            by_area ==> key_table(r.0@) == self.thumbnails@.map_values(|t: Thumbnail| thumbnail_area_key(t)),
            !by_area ==> key_table(r.0@) == self.thumbnails@.map_values(|t: Thumbnail| thumbnail_preference_key(t)),
            by_area ==> r.1@ == self.dimensioned(),
            !by_area ==> r.1@ == self.all_thumbnails(),
            uniform(key_table(r.0@), if by_area { 2 } else { 1 }),
    {
        let mut keys: Vec<Vec<i128>> = Vec::new();
        let mut sel: Vec<bool> = Vec::new();
        let mut i: usize = 0;
        while i < self.thumbnails.len()
            invariant
                self.thumbnail_areas_fit(),
                i <= self.thumbnails.len(),
                keys.len() == i,
                sel.len() == i,
                forall|k: int| 0 <= k < i ==> #[trigger] keys@[k]@ == if by_area {
                    thumbnail_area_key(self.thumbnails@[k])
                } else {
                    thumbnail_preference_key(self.thumbnails@[k])
                },
                forall|k: int| 0 <= k < i ==> #[trigger] sel@[k] == if by_area {
                    self.thumbnails@[k].has_dimensions()
                } else {
                    true
                },
            decreases self.thumbnails.len() - i,
        {
            let t = &self.thumbnails[i];
            let mut k: Vec<i128> = Vec::new();
            if by_area {
                let w: i128 = match t.width {
                    Some(w) => w as i128,
                    None => 0,
                };
                let h: i128 = match t.height {
                    Some(h) => h as i128,
                    None => 0,
                };
                assert(-0x8000_0000_0000_0000i128 <= w <= 0x7fff_ffff_ffff_ffffi128);
                assert(-0x8000_0000_0000_0000i128 <= h <= 0x7fff_ffff_ffff_ffffi128);
                assert(-0x4000_0000_0000_0000_0000_0000_0000_0000int <= w * h <= 0x4000_0000_0000_0000_0000_0000_0000_0000int) by (nonlinear_arith)
                    requires
                        -0x8000_0000_0000_0000i128 <= w <= 0x7fff_ffff_ffff_ffffi128,
                        -0x8000_0000_0000_0000i128 <= h <= 0x7fff_ffff_ffff_ffffi128,
                ;
                k.push(w * h);
                sel.push(t.width.is_some() && t.height.is_some());
            } else {
                sel.push(true);
            }
            k.push(t.preference as i128);
            proof {
                if by_area {
                    assert(k@ =~= thumbnail_area_key(self.thumbnails@[i as int]));
                } else {
                    assert(k@ =~= thumbnail_preference_key(self.thumbnails@[i as int]));
                }
            }
            keys.push(k);
            i = i + 1;
        }
        proof {
            if by_area {
                assert(key_table(keys@) =~= self.thumbnails@.map_values(|t: Thumbnail| thumbnail_area_key(t)));
                assert(sel@ =~= self.dimensioned());
            } else {
                assert(key_table(keys@) =~= self.thumbnails@.map_values(|t: Thumbnail| thumbnail_preference_key(t)));
                assert(sel@ =~= self.all_thumbnails());
            }
        }
        (keys, sel)
    }

    /// Returns the best thumbnail by resolution (width × height), breaking
    /// ties by preference; falls back to the highest-preference thumbnail if
    /// none has both dimensions. `None` if there are no thumbnails.
    pub fn best_thumbnail(&self) -> (r: Option<&Thumbnail>)
        requires
            self.thumbnail_areas_fit(),
        ensures
            r is None <==> self.thumbnails@.len() == 0,
            r matches Some(t) ==> exists|i: int| self.best_thumbnail_at(i) && *t == self.thumbnails@[i],
    {
        let (keys, sel) = self.thumbnail_keys(true);
        let first = argmax_last(&keys, &sel, Ghost(2));
        let pick = match first {
            Some(i) => Some(i),
            None => {
                let (keys2, sel2) = self.thumbnail_keys(false);
                let p = argmax_last(&keys2, &sel2, Ghost(1));
                proof {
                    if self.thumbnails@.len() > 0 {
                        assert(sel2@[0]);
                    }
                }
                p
            },
        };
        match pick {
            Some(i) => {
                assert(self.best_thumbnail_at(i as int));
                Some(&self.thumbnails[i])
            },
            None => {
                proof {
                    if self.thumbnails@.len() > 0 {
                        assert(self.all_thumbnails()[0]);
                    }
                }
                None
            },
        }
    }

    /// Returns the worst thumbnail by resolution (width × height), breaking
    /// ties by preference; falls back to the lowest-preference thumbnail if
    /// none has both dimensions. `None` if there are no thumbnails.
    pub fn worst_thumbnail(&self) -> (r: Option<&Thumbnail>)
        requires
            self.thumbnail_areas_fit(),
        ensures
            r is None <==> self.thumbnails@.len() == 0,
            r matches Some(t) ==> exists|i: int| self.worst_thumbnail_at(i) && *t == self.thumbnails@[i],
    {
        let (keys, sel) = self.thumbnail_keys(true);
        let first = argmin_first(&keys, &sel, Ghost(2));
        let pick = match first {
            Some(i) => Some(i),
            None => {
                let (keys2, sel2) = self.thumbnail_keys(false);
                let p = argmin_first(&keys2, &sel2, Ghost(1));
                proof {
                    if self.thumbnails@.len() > 0 {
                        assert(sel2@[0]);
                    }
                }
                p
            },
        };
        match pick {
            Some(i) => {
                assert(self.worst_thumbnail_at(i as int));
                Some(&self.thumbnails[i])
            },
            None => {
                proof {
                    if self.thumbnails@.len() > 0 {
                        assert(self.all_thumbnails()[0]);
                    }
                }
                None
            },
        }
    }

    /// Whether computing the area of every thumbnail with both dimensions
    /// stays within `i64`.
    pub fn thumbnail_areas_in_range(&self) -> (r: bool)
        ensures
            r == self.thumbnail_areas_fit(),
    {
        let mut i: usize = 0;
        while i < self.thumbnails.len()
            invariant
                i <= self.thumbnails.len(),
                forall|k: int| 0 <= k < i && (#[trigger] self.thumbnails@[k]).has_dimensions() ==> self.thumbnails@[k].area_fits(),
            decreases self.thumbnails.len() - i,
        {
            let t = &self.thumbnails[i];
            if let (Some(w), Some(h)) = (t.width, t.height) {
                if w.checked_mul(h).is_none() {
                    assert(!self.thumbnails@[i as int].area_fits());
                    return false;
                }
            }
            i = i + 1;
        }
        true
    }

    /// Whether computing the area of every thumbnail that satisfies the
    /// minimum size stays within `i64`.
    pub fn fitting_areas_in_range(&self, min_width: u32, min_height: u32) -> (r: bool)
        ensures
            r == self.fitting_areas_fit(min_width, min_height),
    {
        let mut i: usize = 0;
        while i < self.thumbnails.len()
            invariant
                i <= self.thumbnails.len(),
                forall|k: int| 0 <= k < i && fits_size(#[trigger] self.thumbnails@[k], min_width, min_height) ==> self.thumbnails@[k].area_fits(),
            decreases self.thumbnails.len() - i,
        {
            let t = &self.thumbnails[i];
            if let (Some(w), Some(h)) = (t.width, t.height) {
                if w >= min_width as i64 && h >= min_height as i64 && w.checked_mul(h).is_none() {
                    assert(!self.thumbnails@[i as int].area_fits());
                    return false;
                }
            }
            i = i + 1;
        }
        true
    }

    /// Computing the areas of the thumbnails that satisfy the minimum size
    /// does not overflow.
    pub open spec fn fitting_areas_fit(self, min_width: u32, min_height: u32) -> bool {
        forall|i: int|
            0 <= i < self.thumbnails@.len() && fits_size(#[trigger] self.thumbnails@[i], min_width, min_height)
                ==> self.thumbnails@[i].area_fits()
    }

    /// Returns the smallest thumbnail (by area, the first of equal ones) that
    /// is at least `min_width` wide and `min_height` high, or `None` if none
    /// qualifies.
    pub fn thumbnail_for_size(&self, min_width: u32, min_height: u32) -> (r: Option<&Thumbnail>)
        requires
            self.fitting_areas_fit(min_width, min_height),
        ensures
            r is None <==> !any_selected(self.fitting(min_width, min_height)),
            r matches Some(t) ==> exists|i: int|
                is_first_min(
                    self.thumbnails@.map_values(|t: Thumbnail| thumbnail_size_key(t)),
                    self.fitting(min_width, min_height),
                    i,
                ) && *t == self.thumbnails@[i],
    {
        let mut keys: Vec<Vec<i128>> = Vec::new();
        let mut sel: Vec<bool> = Vec::new();
        let mut i: usize = 0;
        while i < self.thumbnails.len()
            invariant
                i <= self.thumbnails.len(),
                keys.len() == i,
                sel.len() == i,
                forall|k: int| 0 <= k < i ==> #[trigger] keys@[k]@ == thumbnail_size_key(self.thumbnails@[k]),
                forall|k: int| 0 <= k < i ==> #[trigger] sel@[k] == fits_size(self.thumbnails@[k], min_width, min_height),
            decreases self.thumbnails.len() - i,
        {
            let t = &self.thumbnails[i];
            let fits = match (t.width, t.height) {
                (Some(w), Some(h)) => w >= min_width as i64 && h >= min_height as i64,
                _ => false,
            };
            let w: i128 = match t.width {
                Some(w) => w as i128,
                None => 0,
            };
            let h: i128 = match t.height {
                Some(h) => h as i128,
                None => 0,
            };
            assert(-0x4000_0000_0000_0000_0000_0000_0000_0000int <= w * h <= 0x4000_0000_0000_0000_0000_0000_0000_0000int) by (nonlinear_arith)
                requires
                    -0x8000_0000_0000_0000i128 <= w <= 0x7fff_ffff_ffff_ffffi128,
                    -0x8000_0000_0000_0000i128 <= h <= 0x7fff_ffff_ffff_ffffi128,
            ;
            let mut k: Vec<i128> = Vec::new();
            k.push(w * h);
            assert(k@ =~= thumbnail_size_key(self.thumbnails@[i as int]));
            keys.push(k);
            sel.push(fits);
            i = i + 1;
        }
        assert(key_table(keys@) =~= self.thumbnails@.map_values(|t: Thumbnail| thumbnail_size_key(t)));
        assert(sel@ =~= self.fitting(min_width, min_height));
        match argmin_first(&keys, &sel, Ghost(1)) {
            Some(i) => Some(&self.thumbnails[i]),
            None => None,
        }
    }

    /// Returns the earliest `available_at` timestamp across the formats whose
    /// stream URLs expire (storyboards and manifests excluded), or `None` if
    /// no such format carries one.
    pub fn formats_available_at(&self) -> (r: Option<i64>)
        ensures
            r == earliest_available_at(self.formats@),
    {
        let mut best: Option<i64> = None;
        let mut i: usize = 0;
        while i < self.formats.len()
            invariant
                i <= self.formats.len(),
                best == earliest_available_at(self.formats@.take(i as int)),
            decreases self.formats.len() - i,
        {
            let f = &self.formats[i];
            let t = f.format_type();
            let counts = match t {
                FormatType::Storyboard | FormatType::Manifest { .. } => false,
                _ => f.available_at.is_some(),
            };
            if counts {
                let a = f.available_at.unwrap();
                best = match best {
                    Some(m) => if a < m {
                        Some(a)
                    } else {
                        Some(m)
                    },
                    None => Some(a),
                };
            }
            assert(self.formats@.take(i + 1).drop_last() =~= self.formats@.take(i as int));
            i = i + 1;
        }
        assert(self.formats@.take(self.formats.len() as int) =~= self.formats@);
        best
    }

    /// Whether the earliest expiry timestamp can be computed without overflow.
    pub open spec fn expiry_fits(self) -> bool {
        earliest_available_at(self.formats@) matches Some(a) ==> a + FORMAT_URL_LIFETIME <= i64::MAX
    }

    /// Whether the earliest expiry timestamp can be computed without overflow.
    pub fn expiry_in_range(&self) -> (r: bool)
        ensures
            r == self.expiry_fits(),
    {
        match self.formats_available_at() {
            Some(a) => a <= i64::MAX - FORMAT_URL_LIFETIME,
            None => true,
        }
    }

    /// The format stream URLs are within their CDN lifetime at time `now`:
    /// no format carries expiry data, or `now` is before the earliest
    /// `available_at` plus [`FORMAT_URL_LIFETIME`].
    pub open spec fn urls_fresh_at(self, now: int) -> bool {
        match earliest_available_at(self.formats@) {
            None => true,
            Some(a) => now < a + FORMAT_URL_LIFETIME,
        }
    }

    /// Whether the format stream URLs are still within their CDN lifetime at
    /// time `now`.
    pub fn are_format_urls_fresh_at(&self, now: i64) -> (r: bool)
        requires
            self.expiry_fits(),
        ensures
            r == self.urls_fresh_at(now as int),
    {
        match self.formats_available_at() {
            None => true,
            Some(a) => now < a + FORMAT_URL_LIFETIME,
        }
    }

    /// Whether the format stream URLs are still within their CDN lifetime
    /// now: `true` when no format carries expiry data (the clock is then not
    /// read), else the clock is read once and compared as in
    /// [`Video::are_format_urls_fresh_at`].
    pub fn are_format_urls_fresh(&self) -> (r: bool)
        requires
            self.expiry_fits(),
        ensures
            earliest_available_at(self.formats@) is None ==> r,
            exists|now: i64| r == self.urls_fresh_at(now as int),
    {
        match self.formats_available_at() {
            None => {
                assert(self.urls_fresh_at(0));
                true
            },
            Some(_) => {
                let now = crate::utils::current_timestamp();
                self.are_format_urls_fresh_at(now)
            },
        }
    }

    /// Storyboard formats, by position.
    pub open spec fn storyboards(self) -> Seq<bool> {
        self.formats@.map_values(|f: Format| is_storyboard(f))
    }

    /// The storyboard keys of the formats, by position.
    pub open spec fn storyboard_keys(self) -> Seq<Seq<i128>> {
        self.formats@.map_values(|f: Format| storyboard_key(f))
    }

    /// The storyboard key of a format.
    pub fn storyboard_key_of(f: &Format) -> (k: Vec<i128>)
        ensures
            k@ == storyboard_key(*f),
    {
        let frags: i128 = match &f.storyboard_info.fragments {
            Some(v) => v.len() as i128,
            None => 0,
        };
        let w: u64 = match f.video_resolution.width {
            Some(w) => w as u64,
            None => 0,
        };
        let h: u64 = match f.video_resolution.height {
            Some(h) => h as u64,
            None => 0,
        };
        assert(w * h <= 0xffff_ffff_ffff_ffffu64) by (nonlinear_arith)
            requires
                w <= 0xffff_ffffu64,
                h <= 0xffff_ffffu64,
        ;
        let area: u64 = w * h;
        let mut k: Vec<i128> = Vec::new();
        k.push(frags);
        k.push(area as i128);
        assert(k@ =~= storyboard_key(*f));
        k
    }

    /// The storyboard keys and the storyboard flags of all formats.
    pub fn storyboard_table(&self) -> (r: (Vec<Vec<i128>>, Vec<bool>))
        ensures
            r.0.len() == self.formats.len(),
            r.1.len() == self.formats.len(),
            key_table(r.0@) == self.storyboard_keys(),
            r.1@ == self.storyboards(),
            uniform(key_table(r.0@), 2),
    {
        let mut keys: Vec<Vec<i128>> = Vec::new();
        let mut sel: Vec<bool> = Vec::new();
        let mut i: usize = 0;
        while i < self.formats.len()
            invariant
                i <= self.formats.len(),
                keys.len() == i,
                sel.len() == i,
                forall|k: int| 0 <= k < i ==> #[trigger] keys@[k]@ == storyboard_key(self.formats@[k]),
                forall|k: int| 0 <= k < i ==> #[trigger] sel@[k] == is_storyboard(self.formats@[k]),
            decreases self.formats.len() - i,
        {
            let f = &self.formats[i];
            keys.push(Self::storyboard_key_of(f));
            let t = f.format_type();
            sel.push(t.is_storyboard());
            i = i + 1;
        }
        assert(key_table(keys@) =~= self.storyboard_keys());
        assert(sel@ =~= self.storyboards());
        (keys, sel)
    }

    /// Returns the best storyboard format: most fragments, then largest frame
    /// area (the last of equal ones), or `None` if there is no storyboard.
    pub fn best_storyboard_format(&self) -> (r: Option<&Format>)
        ensures
            r is None <==> !any_selected(self.storyboards()),
            r matches Some(f) ==> exists|i: int| is_last_max(self.storyboard_keys(), self.storyboards(), i) && *f == self.formats@[i],
    {
        let (keys, sel) = self.storyboard_table();
        match argmax_last(&keys, &sel, Ghost(2)) {
            Some(i) => Some(&self.formats[i]),
            None => None,
        }
    }

    /// Returns the worst storyboard format: fewest fragments, then smallest
    /// frame area (the first of equal ones), or `None` if there is no
    /// storyboard.
    pub fn worst_storyboard_format(&self) -> (r: Option<&Format>)
        ensures
            r is None <==> !any_selected(self.storyboards()),
            r matches Some(f) ==> exists|i: int| is_first_min(self.storyboard_keys(), self.storyboards(), i) && *f == self.formats@[i],
    {
        let (keys, sel) = self.storyboard_table();
        match argmin_first(&keys, &sel, Ghost(2)) {
            Some(i) => Some(&self.formats[i]),
            None => None,
        }
    }

    /// Whether the video is currently broadcast live: `is_live` is
    /// `Some(true)` or the live status is `"is_live"`.
    pub fn is_currently_live(&self) -> (r: bool)
        ensures
            r == (self.is_live == Some(true) || self.live_status@ == "is_live"@),
    {
        let flagged = match self.is_live {
            Some(b) => b,
            None => false,
        };
        flagged || str_eq(self.live_status.as_str(), "is_live")
    }

    /// Whether the video is a scheduled stream that has not started: the live
    /// status is `"is_upcoming"`.
    pub fn is_upcoming(&self) -> (r: bool)
        ensures
            r == (self.live_status@ == "is_upcoming"@),
    {
        str_eq(self.live_status.as_str(), "is_upcoming")
    }

    /// HLS formats, by position.
    pub open spec fn hls_formats(self) -> Seq<bool> {
        self.formats@.map_values(|f: Format| is_hls(f))
    }

    /// The total-bitrate keys of the formats, by position.
    pub open spec fn total_rate_keys(self) -> Seq<Seq<i128>> {
        self.formats@.map_values(|f: Format| total_rate_key(f))
    }

    /// Returns all formats using the HLS (m3u8) protocol, sorted by total
    /// bitrate ascending (absent bitrates first, equal ones in their original
    /// order).
    pub fn live_formats(&self) -> (r: Vec<&Format>)
        ensures
            exists|order: Seq<usize>|
                is_stable_order(self.total_rate_keys(), self.hls_formats(), order) && lists(self.formats@, order, r@),
    {
        let mut keys: Vec<Vec<i128>> = Vec::new();
        let mut sel: Vec<bool> = Vec::new();
        let mut i: usize = 0;
        while i < self.formats.len()
            invariant
                i <= self.formats.len(),
                keys.len() == i,
                sel.len() == i,
                forall|k: int| 0 <= k < i ==> #[trigger] keys@[k]@ == total_rate_key(self.formats@[k]),
                forall|k: int| 0 <= k < i ==> #[trigger] sel@[k] == is_hls(self.formats@[k]),
            decreases self.formats.len() - i,
        {
            let f = &self.formats[i];
            let mut k: Vec<i128> = Vec::new();
            k.push(if f.rates_info.total_rate.is_some() { 1 } else { 0 });
            k.push(order_key_or_zero(f.rates_info.total_rate));
            assert(k@ =~= total_rate_key(*f));
            keys.push(k);
            sel.push(match f.protocol {
                Protocol::M3U8Native => true,
                _ => false,
            });
            i = i + 1;
        }
        assert(key_table(keys@) =~= self.total_rate_keys());
        assert(sel@ =~= self.hls_formats());
        let order = stable_order(&keys, &sel, Ghost(2));
        collect_refs(&self.formats, &order)
    }
}

impl ExtractorInfo {
    /// `ExtractorInfo(extractor=<id>, key=<name>)`.
    pub open spec fn display(self) -> Seq<char> {
        "ExtractorInfo(extractor="@ + self.extractor@ + ", key="@ + self.extractor_key@ + ")"@
    }

    /// Renders the extractor information as `Display` does.
    pub fn to_string(&self) -> (r: String)
        ensures
            r@ == self.display(),
    {
        let mut s = String::from_str("ExtractorInfo(extractor=");
        s.append(self.extractor.as_str());
        s.append(", key=");
        s.append(self.extractor_key.as_str());
        s.append(")");
        s
    }
}

impl Version {
    /// `Version(version=<version>, repository=<repository>)`.
    pub open spec fn display(self) -> Seq<char> {
        "Version(version="@ + self.version@ + ", repository="@ + self.repository@ + ")"@
    }

    /// Renders the version as `Display` does.
    pub fn to_string(&self) -> (r: String)
        ensures
            r@ == self.display(),
    {
        let mut s = String::from_str("Version(version=");
        s.append(self.version.as_str());
        s.append(", repository=");
        s.append(self.repository.as_str());
        s.append(")");
        s
    }
}

impl Video {
    /// `Video(id=<id>, title=<title as {:?}>, channel=<channel as {:?},
    /// "Unknown" when absent>, formats=<count>)`.
    pub open spec fn display(self) -> Seq<char> {
        "Video(id="@ + self.id@ + ", title="@ + debug_text(self.title@) + ", channel="@ + debug_text(
            match self.channel {
                Some(c) => c@,
                None => "Unknown"@,
            },
        ) + ", formats="@ + decimal(self.formats@.len()) + ")"@
    }

    /// Renders the video as `Display` does.
    pub fn to_string(&self) -> (r: String)
        ensures
            r@ == self.display(),
    {
        let mut s = String::from_str("Video(id=");
        s.append(self.id.as_str());
        s.append(", title=");
        let t = quote_debug(self.title.as_str());
        s.append(t.as_str());
        s.append(", channel=");
        let c = match &self.channel {
            Some(c) => quote_debug(c.as_str()),
            None => quote_debug("Unknown"),
        };
        s.append(c.as_str());
        s.append(", formats=");
        push_decimal(&mut s, self.formats.len() as u64);
        s.append(")");
        s
    }
}

} // verus!
