//! Static assets: a table of byte blobs found by path, and the media type
//! that a path's extension stands for.

use vstd::prelude::*;
use vstd::slice::slice_to_vec;
use crate::text::{chars_of, reads, same_text};

verus! {

/// The media type under which a response body is delivered.
#[derive(Clone, Copy, Debug, PartialEq, Eq, Structural)]
pub enum MediaType {
    Html,
    Css,
    JavaScript,
    Json,
    Svg,
    Png,
    Jpeg,
    Gif,
    Icon,
    Text,
    /// Any content whose extension is not known.
    Binary,
}

impl MediaType {
    /// The value of the `Content-Type` header for this media type.
    pub open spec fn mime_text(self) -> Seq<char> {
        match self {
            MediaType::Html => "text/html; charset=utf-8"@,
            MediaType::Css => "text/css; charset=utf-8"@,
            MediaType::JavaScript => "text/javascript; charset=utf-8"@,
            MediaType::Json => "application/json"@,
            MediaType::Svg => "image/svg+xml"@,
            MediaType::Png => "image/png"@,
            MediaType::Jpeg => "image/jpeg"@,
            MediaType::Gif => "image/gif"@,
            MediaType::Icon => "image/x-icon"@,
            MediaType::Text => "text/plain; charset=utf-8"@,
            MediaType::Binary => "application/octet-stream"@,
        }
    }

    /// The value of the `Content-Type` header for this media type.
    pub fn mime(self) -> (r: &'static str)
        ensures
            r@ == self.mime_text(),
    {
        match self {
            MediaType::Html => "text/html; charset=utf-8",
            MediaType::Css => "text/css; charset=utf-8",
            MediaType::JavaScript => "text/javascript; charset=utf-8",
            MediaType::Json => "application/json",
            MediaType::Svg => "image/svg+xml",
            MediaType::Png => "image/png",
            MediaType::Jpeg => "image/jpeg",
            MediaType::Gif => "image/gif",
            MediaType::Icon => "image/x-icon",
            MediaType::Text => "text/plain; charset=utf-8",
            MediaType::Binary => "application/octet-stream",
        }
    }
}

/// The extension of a path: what follows the last `.` of its last segment.
/// A path whose last segment holds no `.` has none.
pub open spec fn extension(path: Seq<char>) -> Option<Seq<char>>
    decreases path.len(),
{
    if path.len() == 0 {
        None
    } else if path.last() == '.' {
        Some(Seq::empty())
    } else if path.last() == '/' {
        None
    } else {
        match extension(path.drop_last()) {
            Some(e) => Some(e.push(path.last())),
            None => None,
        }
    }
}

/// The media type that an extension stands for. Extensions are compared as
/// they are written, in lower case.
pub open spec fn media_type_of_extension(e: Seq<char>) -> MediaType {
    if e == "html"@ || e == "htm"@ {
        MediaType::Html
    } else if e == "css"@ {
        MediaType::Css
    } else if e == "js"@ {
        MediaType::JavaScript
    } else if e == "json"@ {
        MediaType::Json
    } else if e == "svg"@ {
        MediaType::Svg
    } else if e == "png"@ {
        MediaType::Png
    } else if e == "jpg"@ || e == "jpeg"@ {
        MediaType::Jpeg
    } else if e == "gif"@ {
        MediaType::Gif
    } else if e == "ico"@ {
        MediaType::Icon
    } else if e == "txt"@ {
        MediaType::Text
    } else {
        MediaType::Binary
    }
}

/// The media type of the asset at `path`, by its extension.
pub open spec fn media_type_of(path: Seq<char>) -> MediaType {
    match extension(path) {
        Some(e) => media_type_of_extension(e),
        None => MediaType::Binary,
    }
}

/// The extension after a stretch without `.` and `/` is the extension before
/// it with the stretch added.
proof fn lemma_extension_grows(path: Seq<char>, from: int, to: int)
    requires
        0 <= from <= to <= path.len(),
        forall|j: int| from <= j < to ==> #[trigger] path[j] != '.' && path[j] != '/',
    ensures
        extension(path.take(to)) == match extension(path.take(from)) {
            Some(e) => Some(e + path.subrange(from, to)),
            None => None,
        },
    decreases to - from,
{
    if from == to {
        assert(path.subrange(from, to) == Seq::<char>::empty());
        match extension(path.take(from)) {
            Some(e) => {
                assert(e + path.subrange(from, to) == e);
            },
            None => {},
        }
    } else {
        lemma_extension_grows(path, from, to - 1);
        assert(path.take(to).drop_last() == path.take(to - 1));
        assert(path.take(to).last() == path[to - 1]);
        match extension(path.take(from)) {
            Some(e) => {
                assert((e + path.subrange(from, to - 1)).push(path[to - 1]) == e + path.subrange(
                    from,
                    to,
                ));
            },
            None => {},
        }
    }
}

/// The media type that the extension `e` stands for.
fn media_type_for_extension(e: &Vec<char>) -> (r: MediaType)
    ensures
        r == media_type_of_extension(e@),
{
    if reads(e, "html") || reads(e, "htm") {
        MediaType::Html
    } else if reads(e, "css") {
        MediaType::Css
    } else if reads(e, "js") {
        MediaType::JavaScript
    } else if reads(e, "json") {
        MediaType::Json
    } else if reads(e, "svg") {
        MediaType::Svg
    } else if reads(e, "png") {
        MediaType::Png
    } else if reads(e, "jpg") || reads(e, "jpeg") {
        MediaType::Jpeg
    } else if reads(e, "gif") {
        MediaType::Gif
    } else if reads(e, "ico") {
        MediaType::Icon
    } else if reads(e, "txt") {
        MediaType::Text
    } else {
        MediaType::Binary
    }
}

/// The media type of the asset at `path`, by its extension.
pub fn media_type_for(path: &str) -> (r: MediaType)
    ensures
        r == media_type_of(path@),
{
    let chars = chars_of(path);
    let ghost s = path@;
    let n = chars.len();
    let mut i: usize = n;
    while i > 0
        invariant
            chars@ == s,
            s == path@,
            n == chars.len(),
            i <= n,
            forall|j: int| i <= j < n ==> #[trigger] s[j] != '.' && s[j] != '/',
        decreases i,
    {
        let c = chars[i - 1];
        if c == '.' {
            proof {
                lemma_extension_grows(s, i as int, n as int);
                assert(s.take(n as int) == s);
                assert(s.take(i as int).last() == '.');
                assert(Seq::<char>::empty() + s.subrange(i as int, n as int) == s.subrange(
                    i as int,
                    n as int,
                ));
            }
            let mut e: Vec<char> = Vec::new();
            let mut k: usize = i;
            while k < n
                invariant
                    chars@ == s,
                    n == chars.len(),
                    i <= k <= n,
                    e@ == s.subrange(i as int, k as int),
                decreases n - k,
            {
                e.push(chars[k]);
                assert(e@ == s.subrange(i as int, k + 1));
                k = k + 1;
            }
            return media_type_for_extension(&e);
        }
        if c == '/' {
            proof {
                lemma_extension_grows(s, i as int, n as int);
                assert(s.take(n as int) == s);
                assert(s.take(i as int).last() == '/');
            }
            return MediaType::Binary;
        }
        i = i - 1;
    }
    proof {
        lemma_extension_grows(s, 0, n as int);
        assert(s.take(n as int) == s);
        assert(s.take(0).len() == 0);
    }
    MediaType::Binary
}

/// A static asset: a byte blob under a path.
#[derive(Debug, PartialEq, Eq)]
pub struct Asset {
    /// The path of the asset below `/assets/`, without a leading `/`.
    pub path: String,
    /// The content of the asset.
    pub bytes: Vec<u8>,
}

/// The mathematical value of an [`Asset`].
pub struct AssetView {
    pub path: Seq<char>,
    pub bytes: Seq<u8>,
}

impl View for Asset {
    type V = AssetView;

    open spec fn view(&self) -> AssetView {
        AssetView { path: self.path@, bytes: self.bytes@ }
    }
}

/// The values of a sequence of assets, in the same order.
pub open spec fn asset_views(assets: Seq<Asset>) -> Seq<AssetView> {
    assets.map_values(|a: Asset| a@)
}

/// The content of the first asset of the table whose path is `path`.
pub open spec fn lookup(assets: Seq<AssetView>, path: Seq<char>) -> Option<Seq<u8>>
    decreases assets.len(),
{
    if assets.len() == 0 {
        None
    } else if assets[0].path == path {
        Some(assets[0].bytes)
    } else {
        lookup(assets.skip(1), path)
    }
}

/// The view of a blob that may be absent.
pub open spec fn blob_view(blob: Option<Vec<u8>>) -> Option<Seq<u8>> {
    match blob {
        Some(bytes) => Some(bytes@),
        None => None,
    }
}

/// Looks `path` up in the table and returns a copy of the content found.
pub fn find_asset(assets: &Vec<Asset>, path: &str) -> (r: Option<Vec<u8>>)
    ensures
        blob_view(r) == lookup(asset_views(assets@), path@),
{
    let wanted = chars_of(path);
    let ghost all = asset_views(assets@);
    let mut i: usize = 0;
    assert(all.skip(0) == all);
    while i < assets.len()
        invariant
            i <= assets.len(),
            wanted@ == path@,
            all == asset_views(assets@),
            lookup(all, path@) == lookup(all.skip(i as int), path@),
        decreases assets.len() - i,
    {
        let here = chars_of(assets[i].path.as_str());
        assert(all.skip(i as int)[0] == assets@[i as int]@);
        if same_text(&here, &wanted) {
            let bytes = slice_to_vec(assets[i].bytes.as_slice());
            return Some(bytes);
        }
        assert(all.skip(i as int).skip(1) == all.skip(i + 1));
        i = i + 1;
    }
    None
}

} // verus!
