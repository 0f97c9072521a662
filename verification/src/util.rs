//! Locations of bundled resources.

use vstd::prelude::*;

verus! {

/// Text of the path of `file_path` below the resource directory of `root`.
pub open spec fn resource_path(root: Seq<char>, file_path: Seq<char>) -> Seq<char> {
    root + "/resources/"@ + file_path
}

/// Path of a bundled resource: `<root>/resources/<file_path>`.
pub fn get_resource(root: &str, file_path: &str) -> (res: String)
    ensures
        res@ == resource_path(root@, file_path@),
{
    let mut p = root.to_owned();
    p.append("/resources/");
    p.append(file_path);
    p
}

/// `file://` address of a bundled resource: `file://<root>/resources/<path>`.
pub fn uri(root: &str, path: &str) -> (res: String)
    ensures
        res@ == "file://"@ + resource_path(root@, path@),
{
    let mut p = "file://".to_owned();
    let located = get_resource(root, path);
    p.append(located.as_str());
    p
}

} // verus!
