//! What is asked of the remote service, and what is read from its answer.

use vstd::prelude::*;
use vstd::string::*;
use crate::text::{decimal_text, has_prefix, push_decimal, starts_with};

verus! {

/// The address that metadata is requested from.
pub const SERVICE_ENDPOINT: &'static str = "http://www.bing.com/HpImageArchive.aspx";

/// The host that a root-relative image address belongs to, with its scheme.
pub const SERVICE_HOST: &'static str = "https://www.bing.com";

/// The fields of the first image record of a metadata body. A field is
/// `None` where the body does not hold it.
#[derive(Debug)]
pub struct RemoteImageRecord {
    /// The day the image was published, as `yyyyMMdd`.
    pub start_date: Option<String>,
    /// The image's address, absolute or relative to the service's host.
    pub url: Option<String>,
    /// The text shown with the image.
    pub copyright: Option<String>,
    /// The address that the text links to.
    pub copyright_link: Option<String>,
}

/// The address of the metadata of the single day at `offset` for `region`.
pub open spec fn metadata_url_of(offset: int, region: Seq<char>) -> Seq<char> {
    SERVICE_ENDPOINT@ + "?format=js&n=1&idx="@ + decimal_text(offset) + "&cc="@ + region
}

/// Whether an image address names its own scheme and host.
pub open spec fn is_absolute(url: Seq<char>) -> bool {
    has_prefix(url, "http://"@) || has_prefix(url, "https://"@)
}

/// The address an image is downloaded from: `url` itself where it is
/// absolute, else `url` on the service's host over https.
pub open spec fn image_url_of(url: Seq<char>) -> Seq<char> {
    if is_absolute(url) {
        url
    } else {
        SERVICE_HOST@ + url
    }
}

/// Builds the address of the metadata of the single day at `offset`.
pub fn metadata_url(offset: i64, region: &str) -> (url: String)
    ensures
        url@ == metadata_url_of(offset as int, region@),
{
    let mut url = String::from_str(SERVICE_ENDPOINT);
    url.append("?format=js&n=1&idx=");
    push_decimal(&mut url, offset);
    url.append("&cc=");
    url.append(region);
    url
}

/// Resolves the `url` field of a record to the address to download.
pub fn resolve_image_url(url: &str) -> (resolved: String)
    ensures
        resolved@ == image_url_of(url@),
{
    if starts_with(url, "http://") || starts_with(url, "https://") {
        String::from_str(url)
    } else {
        let mut resolved = String::from_str(SERVICE_HOST);
        resolved.append(url);
        resolved
    }
}

} // verus!
