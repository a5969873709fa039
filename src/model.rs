use vstd::prelude::*;
use vstd::string::StringExecFns;

verus! {

/// Kind of data a model takes or produces.
#[derive(Clone, Copy, Debug, PartialEq, Eq)]
pub enum Modality {
    Text,
    Image,
    Audio,
}

impl Modality {
    /// The lower-case name under which the service lists the modality.
    pub open spec fn spec_name(self) -> Seq<char> {
        match self {
            Modality::Text => "text"@,
            Modality::Image => "image"@,
            Modality::Audio => "audio"@,
        }
    }

    pub fn name(&self) -> (r: String)
        ensures
            r@ == self.spec_name(),
    {
        match self {
            Modality::Text => String::from_str("text"),
            Modality::Image => String::from_str("image"),
            Modality::Audio => String::from_str("audio"),
        }
    }
}

/// A model offered by the AI service.
#[derive(Clone, Debug)]
pub struct Ai {
    pub name: String,
    pub description: String,
    pub provider: String,
    pub uncensored: bool,
    pub tier: String,
    pub community: bool,
    pub input_modalities: Vec<Modality>,
    pub output_modalities: Vec<Modality>,
    pub tools: bool,
    pub vision: bool,
    pub audio: bool,
}

/// One entry of a directory listing.
#[derive(Clone, Debug)]
pub struct FsItem {
    pub name: String,
    pub path: String,
    pub is_dir: bool,
    pub size: u64,
    pub modified: u64,
    pub icon: Option<String>,
}

/// A directory and its entries.
#[derive(Clone, Debug)]
pub struct FsResponse {
    pub path: String,
    pub items: Vec<FsItem>,
}

/// What `Path::parent` gives for the path `p`, as text.
pub uninterp spec fn parent_path(p: Seq<char>) -> Option<Seq<char>>;

/// Relies on std::path::Path::parent: the path without its last component,
/// or nothing for a root or an empty path; it depends on the text alone.
#[verifier::external_body]
fn path_parent(path: &str) -> (r: Option<String>)
    ensures
        match r {
            Some(s) => parent_path(path@) == Some(s@),
            None => parent_path(path@) is None,
        },
{
    match std::path::Path::new(path).parent() {
        Some(parent) => Some(parent.to_string_lossy().into_owned()),
        None => None,
    }
}

/// The directory to go up to: the parent when there is one, else `/`.
pub fn parent_or_root(parent: Option<String>) -> (r: String)
    ensures
        r@ == (match parent {
            Some(p) => p@,
            None => "/"@,
        }),
{
    match parent {
        Some(p) => p,
        None => String::from_str("/"),
    }
}

/// The parent directory of `path`, or `/` when it has none.
pub fn get_parent_dir(path: String) -> (r: String)
    ensures
        r@ == (match parent_path(path@) {
            Some(p) => p,
            None => "/"@,
        }),
{
    let parent = path_parent(path.as_str());
    parent_or_root(parent)
}

/// The single root entry offered as a drive where the system has no drive
/// letters.
pub fn root_drives() -> (r: Vec<FsItem>)
    ensures
        r@.len() == 1,
        r@[0].name@ == "Root"@,
        r@[0].path@ == "/"@,
        r@[0].is_dir,
        r@[0].size == 0,
        r@[0].modified == 0,
        r@[0].icon.is_none(),
{
    let root = FsItem {
        name: String::from_str("Root"),
        path: String::from_str("/"),
        is_dir: true,
        size: 0,
        modified: 0,
        icon: None,
    };
    let mut v: Vec<FsItem> = Vec::new();
    v.push(root);
    v
}

} // verus!
