use vstd::prelude::*;
use vstd::string::*;

verus! {

/// The name of the file a message is delivered to: its id with the `.eml`
/// extension.
pub fn message_file_name(id: &str) -> (r: String)
    ensures
        r@ == id@ + seq!['.', 'e', 'm', 'l'],
{
    let mut r = String::from_str(id);
    r.append(".eml");
    proof {
        reveal_strlit(".eml");
        assert(r@ =~= id@ + seq!['.', 'e', 'm', 'l']);
    }
    r
}

} // verus!
