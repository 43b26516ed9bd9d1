//! Infobase connection strings.

use vstd::prelude::*;

use crate::support::text::{
    chars_of, has_prefix_ignore_ascii_case, slice_chars, split_chars, split_on, starts_with_ignore_ascii_case,
    string_of, trim, trim_chars, views_of,
};

verus! {

/// The value of the first `File=` part of a `;`-separated connection string,
/// parts trimmed, the key matched without ASCII case.
pub open spec fn first_file_value(parts: Seq<Seq<char>>) -> Option<Seq<char>>
    decreases parts.len(),
{
    if parts.len() == 0 {
        None
    } else if has_prefix_ignore_ascii_case(trim(parts[0]), "file="@) {
        Some(trim(parts[0]).skip(5))
    } else {
        first_file_value(parts.drop_first())
    }
}

/// A raw infobase connection string such as `File=/path/to/ib`.
#[derive(Debug, Clone, PartialEq, Eq)]
pub struct ConnectionString(pub String);

impl ConnectionString {
    /// The file infobase path named by a `File=` part, if any.
    pub fn file_path(&self) -> (r: Option<String>)
        ensures
            match r {
                Some(p) => first_file_value(split_on(self.0@, ';')) == Some(p@),
                None => first_file_value(split_on(self.0@, ';')) is None,
            },
    {
        let cs = chars_of(self.0.as_str());
        let parts = split_chars(cs.as_slice(), ';');
        let ghost all = views_of(parts@);
        let key = chars_of("file=");
        proof {
            reveal_strlit("file=");
        }
        let mut i: usize = 0;
        assert(all.skip(0) =~= all);
        while i < parts.len()
            invariant
                i <= parts@.len(),
                all == views_of(parts@),
                all == split_on(cs@, ';'),
                key@ == "file="@,
                key@.len() == 5,
                cs@ == self.0@,
                first_file_value(all.skip(i as int)) == first_file_value(all),
            decreases parts@.len() - i,
        {
            assert(all.skip(i as int).drop_first() =~= all.skip(i + 1));
            assert(all.skip(i as int)[0] == parts@[i as int]@);
            let part = trim_chars(parts[i].as_slice());
            if starts_with_ignore_ascii_case(part.as_slice(), key.as_slice()) {
                let v = slice_chars(part.as_slice(), 5, part.len());
                assert(v@ =~= part@.skip(5));
                return Some(string_of(v.as_slice()));
            }
            i += 1;
        }
        assert(all.skip(i as int) =~= Seq::<Seq<char>>::empty());
        None
    }

    /// The connection string as given.
    pub fn as_str(&self) -> (s: &str)
        ensures
            s@ == self.0@,
    {
        self.0.as_str()
    }
}

} // verus!
