//! Featured performers named in a track title.
use vstd::prelude::*;
use crate::err::Error;
use crate::text::{split_chars, split_on, split_once, split_once_chars, string_of, trim, trim_of, chars_of};

verus! {

/// The featured performers that the title `s` names, or `None` where its
/// `(feat. ` marker is not closed: the text between the first `(feat. ` and
/// the next `)`, cut at each `&`, each piece trimmed. A title without the
/// marker names nobody.
pub open spec fn feat_of(s: Seq<char>) -> Option<Seq<Seq<char>>> {
    match split_once(s, "(feat. "@) {
        None => Some(Seq::empty()),
        Some((_, after)) => match split_once(after, ")"@) {
            None => None,
            Some((inner, _)) => Some(split_on(inner, '&').map_values(|p: Seq<char>| trim_of(p))),
        },
    }
}

/// The featured performers named in the title `s`; fails where a `(feat. `
/// marker has no closing `)`.
pub fn get_perf(s: &str) -> (r: Result<Vec<String>, Error>)
    ensures
        match feat_of(s@) {
            Some(names) => r matches Ok(v) && v.deep_view() == names,
            None => r matches Err(Error::ParseFeat(_)),
        },
{
    let v = chars_of(s);
    let after = match split_once_chars(&v, "(feat. ") {
        Some((_, after)) => after,
        None => {
            let r: Vec<String> = Vec::new();
            assert(r.deep_view() =~= Seq::<Seq<char>>::empty());
            return Ok(r);
        },
    };
    let inner = match split_once_chars(&after, ")") {
        Some((inner, _)) => inner,
        None => {
            return Err(Error::ParseFeat("Missing closing ')'"));
        },
    };
    let pieces = split_chars(&inner, '&');
    let ghost want = split_on(inner@, '&').map_values(|p: Seq<char>| trim_of(p));
    let mut r: Vec<String> = Vec::new();
    let mut i: usize = 0;
    while i < pieces.len()
        invariant
            i <= pieces.len(),
            pieces@.map_values(|p: Vec<char>| p@) == split_on(inner@, '&'),
            want == split_on(inner@, '&').map_values(|p: Seq<char>| trim_of(p)),
            r.deep_view() == want.take(i as int),
        decreases pieces.len() - i,
    {
        let whole = string_of(&pieces[i]);
        let t = trim(whole.as_str());
        let owned = t.to_owned();
        assert(pieces@[i as int]@ == split_on(inner@, '&')[i as int]);
        assert(owned@ == want[i as int]);
        let ghost before = r.deep_view();
        r.push(owned);
        assert(r.deep_view() =~= before.push(want[i as int]));
        assert(r.deep_view() =~= want.take(i + 1));
        i = i + 1;
    }
    assert(want.take(pieces.len() as int) =~= want);
    Ok(r)
}

} // verus!
