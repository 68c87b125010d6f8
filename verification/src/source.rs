//! Where the original of a requested image is read from: a local file when its URL lies
//! under a configured external prefix, the remote URL otherwise.

use vstd::prelude::*;
use base64::Engine;
use vstd::string::StringExecFns;
use vstd::utf8::{decode_utf8, valid_utf8};
use vstd::string::StringSliceAdditionalSpecFns;
use crate::config::Settings;
use crate::text::{
    chars_of, contains_chars, contains_seq, copy_range, pairs_map, replace_all,
    replace_chars, segment_is, split_chars, split_on, vecs_view,
};

verus! {

/// The (external, local) prefix pairs written in a pieces list: each piece that splits at
/// `|` into exactly two parts gives one pair, in order; other pieces are skipped.
pub open spec fn pair_pieces(pieces: Seq<Seq<char>>) -> Seq<(Seq<char>, Seq<char>)>
    decreases pieces.len(),
{
    if pieces.len() == 0 {
        Seq::empty()
    } else {
        let parts = split_on(pieces[0], '|');
        let rest = pair_pieces(pieces.drop_first());
        if parts.len() == 2 {
            seq![(parts[0], parts[1])] + rest
        } else {
            rest
        }
    }
}

/// The (external, local) prefix pairs of a `ext|local,ext|local,...` setting.
pub open spec fn path_pairs(text: Seq<char>) -> Seq<(Seq<char>, Seq<char>)> {
    pair_pieces(split_on(text, ','))
}

/// The views of a list of character-vector pairs.
pub open spec fn char_pairs_view(s: Seq<(Vec<char>, Vec<char>)>) -> Seq<(Seq<char>, Seq<char>)> {
    s.map_values(|p: (Vec<char>, Vec<char>)| (p.0@, p.1@))
}

/// Reads the (external, local) prefix pairs of a `ext|local,ext|local,...` setting.
pub fn parse_path_pairs(text: &str) -> (r: Vec<(Vec<char>, Vec<char>)>)
    ensures
        char_pairs_view(r@) == path_pairs(text@),
{
    let v = chars_of(text);
    let pieces = split_chars(&v, ',');
    let mut r: Vec<(Vec<char>, Vec<char>)> = Vec::new();
    let mut i: usize = 0;
    assert(vecs_view(pieces@).skip(0) =~= vecs_view(pieces@));
    while i < pieces.len()
        invariant
            i <= pieces@.len(),
            vecs_view(pieces@) == split_on(v@, ','),
            v@ == text@,
            path_pairs(text@) == char_pairs_view(r@) + pair_pieces(vecs_view(pieces@).skip(i as int)),
        decreases pieces@.len() - i,
    {
        let ghost ps = vecs_view(pieces@).skip(i as int);
        assert(ps[0] == pieces@[i as int]@);
        assert(ps.drop_first() =~= vecs_view(pieces@).skip(i + 1));
        let parts = split_chars(&pieces[i], '|');
        let ghost before = char_pairs_view(r@);
        if parts.len() == 2 {
            let a = copy_range(&parts[0], 0, parts[0].len());
            let b = copy_range(&parts[1], 0, parts[1].len());
            assert(a@ =~= parts@[0]@);
            assert(b@ =~= parts@[1]@);
            assert(vecs_view(parts@)[0] == parts@[0]@);
            assert(vecs_view(parts@)[1] == parts@[1]@);
            r.push((a, b));
            assert(char_pairs_view(r@) =~= before + seq![(a@, b@)]);
        }
        i = i + 1;
    }
    assert(vecs_view(pieces@).skip(i as int) =~= Seq::<Seq<char>>::empty());
    assert(char_pairs_view(r@) =~= path_pairs(text@));
    r
}

/// The position of the first pair whose external prefix occurs in `url`.
pub open spec fn first_contained(url: Seq<char>, pairs: Seq<(Seq<char>, Seq<char>)>) -> Option<int>
    decreases pairs.len(),
{
    if pairs.len() == 0 {
        None
    } else if contains_seq(url, pairs[0].0) {
        Some(0)
    } else {
        match first_contained(url, pairs.drop_first()) {
            Some(i) => Some(i + 1),
            None => None,
        }
    }
}

proof fn lemma_first_contained(url: Seq<char>, pairs: Seq<(Seq<char>, Seq<char>)>, i: int)
    requires
        0 <= i <= pairs.len(),
        forall|k: int| 0 <= k < i ==> !contains_seq(url, #[trigger] pairs[k].0),
        i == pairs.len() || contains_seq(url, pairs[i].0),
    ensures
        first_contained(url, pairs) == (if i == pairs.len() { None } else { Some(i) }),
    decreases i,
{
    if i > 0 {
        assert forall|k: int| 0 <= k < i - 1 implies !contains_seq(url, #[trigger] pairs.drop_first()[k].0) by {
            assert(pairs.drop_first()[k] == pairs[k + 1]);
        }
        lemma_first_contained(url, pairs.drop_first(), i - 1);
    }
}

proof fn lemma_pairs_map_last(s: Seq<(Seq<char>, Seq<char>)>, k: Seq<char>, j: int)
    requires
        0 <= j < s.len(),
        s[j].0 == k,
        forall|m: int| j < m < s.len() ==> s[m].0 != k,
    ensures
        pairs_map(s).contains_key(k),
        pairs_map(s)[k] == s[j].1,
    decreases s.len(),
{
    if j < s.len() - 1 {
        lemma_pairs_map_last(s.drop_last(), k, j);
    }
}

/// `..`
pub open spec fn parent_dir() -> Seq<char> {
    seq!['.', '.']
}

/// Why the original of an image cannot be located.
#[derive(Debug, Clone, Copy, PartialEq, Eq, Structural)]
pub enum SourceError {
    /// The name is not URL-safe base64.
    InvalidBase64,
    /// The decoded name is not UTF-8.
    InvalidUtf8,
    /// The local path would climb out of its directory (it holds `..`).
    PathTraversal,
}

/// Where the original of an image is read from.
pub enum ImageSource {
    /// A local file path.
    Local(String),
    /// A remote URL.
    Remote(String),
}

/// An image source as (is local, path or URL).
pub open spec fn source_view(s: ImageSource) -> (bool, Seq<char>) {
    match s {
        ImageSource::Local(p) => (true, p@),
        ImageSource::Remote(u) => (false, u@),
    }
}

/// Where the original behind `url` is read from: under the first configured external
/// prefix that occurs in the URL, the URL with every occurrence of that prefix replaced
/// by the local prefix it maps to (the last one given for it), refused when the result
/// holds `..`; the URL itself when no prefix occurs in it.
pub open spec fn spec_source_for_url(url: Seq<char>, paths: Seq<char>) -> Result<(bool, Seq<char>), SourceError> {
    let pairs = path_pairs(paths);
    match first_contained(url, pairs) {
        Some(i) => {
            let key = pairs[i].0;
            let local = replace_all(url, key, pairs_map(pairs)[key]);
            if contains_seq(local, parent_dir()) {
                Err(SourceError::PathTraversal)
            } else {
                Ok((true, local))
            }
        },
        None => Ok((false, url)),
    }
}

/// Where the original behind `url` is read from, given the `ext|local,...` setting.
pub fn source_for_url(url: &String, paths: &str) -> (res: Result<ImageSource, SourceError>)
    ensures
        match res {
            Ok(s) => spec_source_for_url(url@, paths@) == Ok::<(bool, Seq<char>), SourceError>(source_view(s)),
            Err(e) => spec_source_for_url(url@, paths@) == Err::<(bool, Seq<char>), SourceError>(e),
        },
{
    let pairs = parse_path_pairs(paths);
    let ghost pv = char_pairs_view(pairs@);
    let u = chars_of(url.as_str());
    let mut i: usize = 0;
    while i < pairs.len()
        invariant
            i <= pairs@.len(),
            pv == char_pairs_view(pairs@),
            u@ == url@,
            forall|k: int| 0 <= k < i ==> !contains_seq(url@, #[trigger] pv[k].0),
        ensures
            i <= pairs@.len(),
            forall|k: int| 0 <= k < i ==> !contains_seq(url@, #[trigger] pv[k].0),
            i == pairs@.len() || contains_seq(url@, pv[i as int].0),
        decreases pairs@.len() - i,
    {
        if contains_chars(&u, &pairs[i].0) {
            break;
        }
        i = i + 1;
    }
    proof {
        if i < pairs@.len() {
            assert(pv[i as int].0 == pairs@[i as int].0@);
        }
        lemma_first_contained(url@, pv, i as int);
    }
    if i == pairs.len() {
        return Ok(ImageSource::Remote(url.clone()));
    }
    let key = &pairs[i].0;
    let mut j: usize = pairs.len() - 1;
    while !segment_is(&pairs[j].0, 0, pairs[j].0.len(), key)
        invariant
            i <= j < pairs@.len(),
            pv == char_pairs_view(pairs@),
            *key == pairs@[i as int].0,
            forall|m: int| j < m < pairs@.len() ==> pv[m].0 != key@,
        decreases j,
    {
        assert(pairs@[j as int].0@.subrange(0, pairs@[j as int].0@.len() as int) =~= pairs@[j as int].0@);
        assert(pv[j as int].0 == pairs@[j as int].0@);
        if j == i {
            assert(false);
        }
        j = j - 1;
    }
    proof {
        assert(pairs@[j as int].0@.subrange(0, pairs@[j as int].0@.len() as int) =~= pairs@[j as int].0@);
        assert(pv[j as int].0 == key@);
        assert(pv[j as int].1 == pairs@[j as int].1@);
        lemma_pairs_map_last(pv, key@, j as int);
    }
    let local = replace_chars(&u, key, &pairs[j].1);
    let lv = chars_of(local.as_str());
    let dots: Vec<char> = vec!['.', '.'];
    assert(dots@ =~= parent_dir());
    if contains_chars(&lv, &dots) {
        return Err(SourceError::PathTraversal);
    }
    Ok(ImageSource::Local(local))
}

} // verus!

verus! {

/// What the URL-safe, padded base64 engine of the `base64` crate
/// (`general_purpose::URL_SAFE`) decodes a byte string to, or `None` when it refuses it.
pub uninterp spec fn url_safe_base64_decoded(input: Seq<u8>) -> Option<Seq<u8>>;

/// Decodes with `base64::engine::general_purpose::URL_SAFE`
/// (`Engine::decode`). The decoded bytes are whatever that engine gives; nothing is
/// claimed of them beyond their being a function of the input.
#[verifier::external_body]
fn decode_url_safe_base64(input: &[u8]) -> (res: Option<Vec<u8>>)
    ensures
        match res {
            Some(v) => url_safe_base64_decoded(input@) == Some(v@),
            None => url_safe_base64_decoded(input@) is None,
        },
{
    match base64::engine::general_purpose::URL_SAFE.decode(input) {
        Ok(v) => Some(v),
        Err(_) => None,
    }
}

/// `String::from_utf8` from std: the text that the bytes encode, when they are UTF-8.
#[verifier::external_body]
fn string_from_utf8(bytes: Vec<u8>) -> (res: Option<String>)
    ensures
        match res {
            Some(s) => valid_utf8(bytes@) && s@ == decode_utf8(bytes@),
            None => !valid_utf8(bytes@),
        },
{
    match String::from_utf8(bytes) {
        Ok(s) => Some(s),
        Err(_) => None,
    }
}

/// Where the original is read from, given the decoded name of an image.
pub open spec fn spec_source_from_decoded(decoded: Option<Seq<u8>>, paths: Seq<char>) -> Result<(bool, Seq<char>), SourceError> {
    match decoded {
        None => Err(SourceError::InvalidBase64),
        Some(b) => if !valid_utf8(b) {
            Err(SourceError::InvalidUtf8)
        } else {
            spec_source_for_url(decode_utf8(b), paths)
        },
    }
}

/// Where the original is read from, given the result of decoding an image's name:
/// refused when the name did not decode, or decoded to something other than UTF-8.
pub fn source_from_decoded(decoded: Option<Vec<u8>>, paths: &str) -> (res: Result<ImageSource, SourceError>)
    ensures
        match res {
            Ok(s) => spec_source_from_decoded(
                match decoded { Some(v) => Some(v@), None => None },
                paths@,
            ) == Ok::<(bool, Seq<char>), SourceError>(source_view(s)),
            Err(e) => spec_source_from_decoded(
                match decoded { Some(v) => Some(v@), None => None },
                paths@,
            ) == Err::<(bool, Seq<char>), SourceError>(e),
        },
{
    match decoded {
        None => Err(SourceError::InvalidBase64),
        Some(bytes) => match string_from_utf8(bytes) {
            None => Err(SourceError::InvalidUtf8),
            Some(url) => source_for_url(&url, paths),
        },
    }
}

/// Where the original of the image named `name` (the URL-safe base64 of its URL) is
/// read from, under the settings' external-to-local prefixes.
pub fn resolve_source(name: &str, settings: &Settings) -> (res: Result<ImageSource, SourceError>)
    ensures
        match res {
            Ok(s) => spec_source_from_decoded(
                url_safe_base64_decoded(name.spec_bytes()),
                settings.external_to_local_paths@,
            ) == Ok::<(bool, Seq<char>), SourceError>(source_view(s)),
            Err(e) => spec_source_from_decoded(
                url_safe_base64_decoded(name.spec_bytes()),
                settings.external_to_local_paths@,
            ) == Err::<(bool, Seq<char>), SourceError>(e),
        },
{
    let decoded = decode_url_safe_base64(name.as_bytes());
    source_from_decoded(decoded, settings.external_to_local_paths.as_str())
}

/// `.tmp`
pub open spec fn tmp_extension() -> Seq<char> {
    seq!['.', 't', 'm', 'p']
}

/// The path a processed image is written to before it is renamed into `path`.
pub fn temporary_path(path: &String) -> (r: String)
    ensures
        r@ == path@ + tmp_extension(),
{
    let mut r = path.clone();
    r.append(".tmp");
    proof {
        reveal_strlit(".tmp");
    }
    assert(r@ =~= path@ + tmp_extension());
    r
}

} // verus!
