//! The list of serial devices, as it is shown to someone who has named
//! none.

use vstd::prelude::*;
use vstd::string::*;
use crate::text::texts;

verus! {

/// The names, each on a line of its own, with a line break between two
/// names and none after the last.
pub open spec fn joined_lines(names: Seq<Seq<char>>) -> Seq<char>
    decreases names.len(),
{
    if names.len() == 0 {
        Seq::empty()
    } else if names.len() == 1 {
        names[0]
    } else {
        joined_lines(names.drop_last()) + "\n"@ + names.last()
    }
}

/// The text of the listing: a heading, then the names.
pub open spec fn listing_text(names: Seq<Seq<char>>) -> Seq<char> {
    "found ports:\n"@ + joined_lines(names)
}

/// Writes the listing of the devices that were found.
pub fn port_listing(names: &Vec<String>) -> (listing: String)
    ensures
        listing@ == listing_text(texts(names@)),
{
    let mut listing = String::from_str("found ports:\n");
    let mut i: usize = 0;
    proof {
        assert(texts(names@).take(0) =~= Seq::empty());
        assert(listing@ =~= "found ports:\n"@ + joined_lines(texts(names@).take(0)));
    }
    while i < names.len()
        invariant
            i <= names.len(),
            listing@ == "found ports:\n"@ + joined_lines(texts(names@).take(i as int)),
        decreases names.len() - i,
    {
        let ghost before = texts(names@).take(i as int);
        let ghost after = texts(names@).take(i + 1);
        assert(after.drop_last() =~= before);
        assert(after.last() == names@[i as int]@);
        if i > 0 {
            listing.append("\n");
        }
        listing.append(names[i].as_str());
        assert(listing@ =~= "found ports:\n"@ + joined_lines(after));
        i = i + 1;
    }
    assert(texts(names@).take(i as int) =~= texts(names@));
    listing
}

} // verus!
