//! One unit of feed content, immutable once fetched.
use vstd::prelude::*;

verus! {

/// Display and identity attributes of one feed item.
pub struct Attributes {
    pub category: String,
    pub kind: String,
    pub name: String,
    pub resolution: Option<String>,
    pub freeleech: String,
    pub internal: u8,
    pub double_upload: bool,
    pub size: u64,
    pub uploader: String,
    pub download_link: String,
    pub bumped_at: String,
}

/// A feed item: a stable id plus its attributes. The pair
/// (id, attributes.bumped_at) is the item's announced identity.
pub struct ApiItem {
    pub id: String,
    pub attributes: Attributes,
}

} // verus!
