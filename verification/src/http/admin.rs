//! Finding the files of the administration panel.

use vstd::prelude::*;
use vstd::string::StrSliceExecFns;
use vstd::string::StringExecFns;

verus! {

/// The name under which the file for a request path is kept: the path, with
/// `index.html` added where it ends in a slash, and without its first character.
pub open spec fn asset_name(path: Seq<char>) -> Seq<char> {
    if path.last() == '/' {
        (path + "index.html"@).drop_first()
    } else {
        path.drop_first()
    }
}

/// Gives the name under which the file for a request path is kept.
pub fn frontend_asset_name(path: &str) -> (name: String)
    requires
        path@.len() > 0,
    ensures
        name@ == asset_name(path@),
{
    let length = path.unicode_len();
    let last_char = path.get_char(length - 1);
    let rest = path.substring_char(1, length).to_owned();
    assert(path@.subrange(1, length as int) =~= path@.drop_first());
    if last_char == '/' {
        let name = rest.concat("index.html");
        assert(name@ =~= (path@ + "index.html"@).drop_first());
        name
    } else {
        rest
    }
}

} // verus!
