//! Reading mirror URLs back into stored images, and the lookup that answers which of
//! a batch of mirror URLs are already stored.

use vstd::prelude::*;
use vstd::string::{StrSliceExecFns, StringExecFns};
use crate::config::Settings;
use crate::image_type::ImageType;
use crate::text::{pairs_map, pairs_view, distinct_keys, lemma_pairs_map_keys, segment_is, before_first, chars_of, find_char, last_run, run_start, trim_end_char, trim_end_position};

verus! {

/// The most URLs that one cached-images request may ask about.
pub const MAX_CACHED_URLS: usize = 256;

/// A character that may appear in the token of a mirror URL: ASCII letters and
/// digits, `-`, `_` and `=`.
pub open spec fn is_token_char(c: char) -> bool {
    ||| ('A' <= c && c <= 'Z')
    ||| ('a' <= c && c <= 'z')
    ||| ('0' <= c && c <= '9')
    ||| c == '-'
    ||| c == '_'
    ||| c == '='
}

/// `small`
pub open spec fn small_word() -> Seq<char> {
    seq!['s', 'm', 'a', 'l', 'l']
}

/// `medium`
pub open spec fn medium_word() -> Seq<char> {
    seq!['m', 'e', 'd', 'i', 'u', 'm']
}

/// The last two non-empty `/`-separated segments of a URL's path (the part before the
/// first `?`), as (selector, token); the selector is empty when there is one segment only.
pub open spec fn mirror_segments(url: Seq<char>) -> Option<(Seq<char>, Seq<char>)> {
    let path = trim_end_char(before_first(url, '?'), '/');
    if path.len() == 0 {
        None
    } else {
        let token = last_run(path, '/');
        let rest = trim_end_char(path.take(path.len() - token.len()), '/');
        Some((last_run(rest, '/'), token))
    }
}

/// The image type that a selector segment asks for.
pub open spec fn selected_type(selector: Seq<char>, settings: Settings) -> ImageType {
    if selector == small_word() {
        ImageType::spec_small(settings)
    } else if selector == medium_word() {
        ImageType::spec_medium(settings)
    } else {
        ImageType::Normal
    }
}

/// What a mirror URL names: the image type chosen by its selector segment and its token,
/// when the token is made of token characters only.
pub open spec fn spec_parse_mirror_url(url: Seq<char>, settings: Settings) -> Option<(ImageType, Seq<char>)> {
    match mirror_segments(url) {
        Some((selector, token)) => if forall|i: int| 0 <= i < token.len() ==> #[trigger] is_token_char(token[i]) {
            Some((selected_type(selector, settings), token))
        } else {
            None
        },
        None => None,
    }
}

fn is_token_char_exec(c: char) -> (b: bool)
    ensures
        b == is_token_char(c),
{
    ('A' <= c && c <= 'Z') || ('a' <= c && c <= 'z') || ('0' <= c && c <= '9') || c == '-' || c
        == '_' || c == '='
}

/// Reads a mirror URL (`.../{selector}/{token}` with an optional `?query`) into the
/// image type it asks for and its token.
pub fn parse_mirror_url(url: &str, settings: &Settings) -> (res: Option<(ImageType, String)>)
    requires
        settings.wf(),
    ensures
        match res {
            Some((t, token)) => spec_parse_mirror_url(url@, *settings) == Some((t, token@)),
            None => spec_parse_mirror_url(url@, *settings) is None,
        },
{
    let v = chars_of(url);
    let q = find_char(&v, '?');
    assert(v@.take(q as int) =~= before_first(url@, '?'));
    let end = trim_end_position(&v, q, '/');
    let ghost path = trim_end_char(before_first(url@, '?'), '/');
    if end == 0 {
        return None;
    }
    let start = run_start(&v, end, '/');
    let ghost token = last_run(path, '/');
    assert(v@.take(end as int) == path);
    assert(token =~= v@.subrange(start as int, end as int));
    assert(mirror_segments(url@) is Some && mirror_segments(url@).unwrap().1 == token);
    let mut i = start;
    while i < end
        invariant
            start <= i <= end <= v@.len(),
            token == v@.subrange(start as int, end as int),
            mirror_segments(url@) is Some && mirror_segments(url@).unwrap().1 == token,
            forall|k: int| start <= k < i ==> is_token_char(#[trigger] v@[k]),
        decreases end - i,
    {
        if !is_token_char_exec(v[i]) {
            assert(!is_token_char(token[i - start]));
            return None;
        }
        i = i + 1;
    }
    assert forall|k: int| 0 <= k < token.len() implies #[trigger] is_token_char(token[k]) by {
        assert(token[k] == v@[start + k]);
    }
    assert(path.take(path.len() - token.len()) =~= v@.take(start as int));
    let sel_end = trim_end_position(&v, start, '/');
    let sel_start = run_start(&v, sel_end, '/');
    let small: Vec<char> = vec!['s', 'm', 'a', 'l', 'l'];
    let medium: Vec<char> = vec!['m', 'e', 'd', 'i', 'u', 'm'];
    assert(small@ =~= small_word());
    assert(medium@ =~= medium_word());
    let image_type = if segment_is(&v, sel_start, sel_end, &small) {
        ImageType::small(settings)
    } else if segment_is(&v, sel_start, sel_end, &medium) {
        ImageType::medium(settings)
    } else {
        ImageType::Normal
    };
    let token_str = String::from_str(url.substring_char(start, end));
    Some((image_type, token_str))
}

} // verus!

verus! {

proof fn lemma_last_run_after_separator(a: Seq<char>, t: Seq<char>, c: char)
    requires
        forall|i: int| 0 <= i < t.len() ==> t[i] != c,
    ensures
        last_run(a + seq![c] + t, c) == t,
    decreases t.len(),
{
    let s = a + seq![c] + t;
    if t.len() == 0 {
        assert(s.last() == c);
    } else {
        assert(s.drop_last() =~= a + seq![c] + t.drop_last());
        lemma_last_run_after_separator(a, t.drop_last(), c);
        assert(t =~= t.drop_last().push(t.last()));
    }
}

/// A mirror URL built as `{base}/{selector}/{token}`, optionally followed by a
/// `?query`, is read back as the type that the selector asks for and the token:
/// `small` and `medium` select those thumbnails, any other selector the full image.
pub proof fn lemma_mirror_url_round_trip(
    base: Seq<char>,
    selector: Seq<char>,
    token: Seq<char>,
    query: Seq<char>,
    settings: Settings,
)
    requires
        forall|i: int| 0 <= i < base.len() ==> base[i] != '?',
        selector.len() > 0,
        forall|i: int| 0 <= i < selector.len() ==> selector[i] != '/' && selector[i] != '?',
        token.len() > 0,
        forall|i: int| 0 <= i < token.len() ==> #[trigger] is_token_char(token[i]),
        query.len() == 0 || query[0] == '?',
    ensures
        spec_parse_mirror_url(base + seq!['/'] + selector + seq!['/'] + token + query, settings)
            == Some((selected_type(selector, settings), token)),
{
    let head = base + seq!['/'] + selector;
    let path = head + seq!['/'] + token;
    let url = path + query;
    assert(url =~= base + seq!['/'] + selector + seq!['/'] + token + query);
    assert forall|k: int| 0 <= k < path.len() implies url[k] != '?' by {
        if k >= head.len() + 1 {
            assert(is_token_char(token[k - head.len() - 1]));
        }
    }
    crate::text::lemma_index_of(url, '?', path.len() as int);
    assert(before_first(url, '?') =~= path);
    assert(is_token_char(token.last()));
    assert(path.last() == token.last());
    assert(trim_end_char(path, '/') == path);
    assert forall|i: int| 0 <= i < token.len() implies token[i] != '/' by {
        assert(is_token_char(token[i]));
    }
    lemma_last_run_after_separator(head, token, '/');
    assert(path.take(path.len() - token.len()) =~= head + seq!['/']);
    assert((head + seq!['/']).drop_last() =~= head);
    assert(head.last() == selector.last());
    assert(trim_end_char(head, '/') == head);
    assert(trim_end_char(head + seq!['/'], '/') == head);
    lemma_last_run_after_separator(base, selector, '/');
}

} // verus!

verus! {

/// The body of a cached-images request: the mirror URLs asked about.
pub struct CachedImagesRequest {
    pub urls: Vec<String>,
}

/// Why a cached-images request is refused.
#[derive(Debug, Clone, Copy, PartialEq, Eq, Structural)]
pub enum CachedImagesError {
    /// More than `MAX_CACHED_URLS` URLs were asked about.
    PayloadTooLarge,
}

/// The answer to a cached-images request, built up URL by URL: each mirror URL that is
/// already stored, mapped to the public URL of its stored image.
pub struct CachedImagesLookup {
    entries: Vec<(String, String)>,
}

impl CachedImagesLookup {
    /// The stored mirror URLs found so far, each mapped to its public URL.
    pub closed spec fn view(&self) -> Map<Seq<char>, Seq<char>> {
        pairs_map(pairs_view(self.entries@))
    }

    /// Nothing is recorded twice.
    pub closed spec fn wf(&self) -> bool {
        distinct_keys(pairs_view(self.entries@))
    }

    /// Starts answering a request; refused when it asks about more than
    /// `MAX_CACHED_URLS` URLs.
    pub fn start(request: &CachedImagesRequest) -> (res: Result<CachedImagesLookup, CachedImagesError>)
        ensures
            match res {
                Ok(l) => l.wf() && l@ == Map::<Seq<char>, Seq<char>>::empty()
                    && request.urls@.len() <= MAX_CACHED_URLS,
                Err(e) => e == CachedImagesError::PayloadTooLarge && request.urls@.len()
                    > MAX_CACHED_URLS,
            },
    {
        if request.urls.len() > MAX_CACHED_URLS {
            return Err(CachedImagesError::PayloadTooLarge);
        }
        let l = CachedImagesLookup { entries: Vec::new() };
        assert(pairs_view(l.entries@) =~= Seq::<(Seq<char>, Seq<char>)>::empty());
        Ok(l)
    }

    /// Whether a mirror URL has been recorded as stored.
    pub fn contains(&self, url: &String) -> (b: bool)
        ensures
            b == self@.contains_key(url@),
    {
        let ghost pv = pairs_view(self.entries@);
        proof {
            lemma_pairs_map_keys(pv, url@);
        }
        let mut i: usize = 0;
        while i < self.entries.len()
            invariant
                i <= self.entries@.len(),
                pv == pairs_view(self.entries@),
                pv.len() == self.entries@.len(),
                self@ == pairs_map(pv),
                pairs_map(pv).contains_key(url@) <==> exists|k: int| 0 <= k < pv.len() && pv[k].0 == url@,
                forall|k: int| 0 <= k < i ==> pv[k].0 != url@,
            decreases self.entries@.len() - i,
        {
            if self.entries[i].0 == *url {
                assert(pv[i as int].0 == url@);
                return true;
            }
            i = i + 1;
        }
        false
    }

    /// What to look for on disk for a mirror URL: its local and public paths, unless it
    /// has been recorded already or is not a mirror URL.
    pub fn candidate(&self, url: &String, settings: &Settings) -> (res: Option<(String, String)>)
        requires
            settings.wf(),
        ensures
            match res {
                Some((local, ext)) => {
                    &&& !self@.contains_key(url@)
                    &&& spec_parse_mirror_url(url@, *settings) matches Some((t, token))
                    &&& local@ == t.spec_local_path(token, *settings)
                    &&& ext@ == t.spec_extern_path(token, *settings)
                },
                None => self@.contains_key(url@) || spec_parse_mirror_url(url@, *settings) is None,
            },
    {
        if self.contains(url) {
            return None;
        }
        match parse_mirror_url(url.as_str(), settings) {
            Some((image_type, token)) => {
                let local = image_type.local_path(&token, settings);
                let ext = image_type.extern_path(&token, settings);
                Some((local, ext))
            },
            None => None,
        }
    }

    /// Records a mirror URL as stored with its public URL; a URL recorded before keeps
    /// its first public URL.
    pub fn record(&mut self, url: String, extern_path: String)
        requires
            old(self).wf(),
        ensures
            final(self).wf(),
            old(self)@.contains_key(url@) ==> final(self)@ == old(self)@,
            !old(self)@.contains_key(url@) ==> final(self)@ == old(self)@.insert(url@, extern_path@),
    {
        if self.contains(&url) {
            return;
        }
        let ghost old_pv = pairs_view(self.entries@);
        proof {
            lemma_pairs_map_keys(old_pv, url@);
        }
        self.entries.push((url, extern_path));
        let ghost pv = pairs_view(self.entries@);
        assert(pv.drop_last() =~= old_pv);
        assert(pv.last() == (url@, extern_path@));
        assert forall|i: int, j: int| 0 <= i < j < pv.len() implies pv[i].0 != pv[j].0 by {
            if j == pv.len() - 1 {
                assert(pv[i] == old_pv[i]);
            } else {
                assert(pv[i] == old_pv[i]);
                assert(pv[j] == old_pv[j]);
            }
        }
    }

    /// The recorded pairs of mirror URL and public URL, each URL once.
    pub fn into_entries(self) -> (res: Vec<(String, String)>)
        requires
            self.wf(),
        ensures
            distinct_keys(pairs_view(res@)),
            pairs_map(pairs_view(res@)) == self@,
    {
        self.entries
    }
}

} // verus!

verus! {

/// Every character of a sequence is a token character.
pub open spec fn all_token_chars(s: Seq<char>) -> bool {
    forall|i: int| 0 <= i < s.len() ==> #[trigger] is_token_char(s[i])
}

proof fn lemma_all_token_concat(a: Seq<char>, b: Seq<char>)
    requires
        all_token_chars(a),
        all_token_chars(b),
    ensures
        all_token_chars(a + b),
{
    assert forall|i: int| 0 <= i < (a + b).len() implies #[trigger] is_token_char((a + b)[i]) by {
        if i < a.len() {
            assert((a + b)[i] == a[i]);
        } else {
            assert((a + b)[i] == b[i - a.len()]);
        }
    }
}

proof fn lemma_decimal_token(n: nat)
    ensures
        all_token_chars(crate::text::decimal(n)),
{
    crate::text::lemma_decimal(n);
    assert forall|i: int| 0 <= i < crate::text::decimal(n).len() implies #[trigger] is_token_char(
        crate::text::decimal(n)[i],
    ) by {
        assert(crate::text::is_digit_char(crate::text::decimal(n)[i]));
    }
}

proof fn lemma_label_token(t: ImageType)
    ensures
        all_token_chars(t.label()),
{
    match t {
        ImageType::Normal => {
            assert(all_token_chars(crate::image_type::normal_word()));
        },
        ImageType::Thumbnail { nwidth, nheight, quality, lossless } => {
            let tail = if lossless {
                crate::image_type::lossless_quality_word()
            } else {
                crate::image_type::quality_word()
            };
            assert(all_token_chars(crate::image_type::thumbnail_word()));
            assert(all_token_chars(tail));
            assert(all_token_chars(seq!['_']));
            lemma_decimal_token(nwidth as nat);
            lemma_decimal_token(nheight as nat);
            lemma_decimal_token(quality as nat);
            let a = crate::image_type::thumbnail_word() + crate::text::decimal(nwidth as nat);
            lemma_all_token_concat(crate::image_type::thumbnail_word(), crate::text::decimal(nwidth as nat));
            lemma_all_token_concat(a, seq!['_']);
            let b = a + seq!['_'];
            lemma_all_token_concat(b, crate::text::decimal(nheight as nat));
            let c = b + crate::text::decimal(nheight as nat);
            lemma_all_token_concat(c, tail);
            lemma_all_token_concat(c + tail, crate::text::decimal(quality as nat));
        },
    }
}

/// The file that a mirror URL names stays inside the storage directory: its name holds
/// no `/`, and its only `.` is the one before the `webp` extension, so it holds no `..`.
pub proof fn lemma_mirror_file_name_is_plain(url: Seq<char>, settings: Settings)
    requires
        spec_parse_mirror_url(url, settings) is Some,
    ensures
        ({
            let (t, token) = spec_parse_mirror_url(url, settings).unwrap();
            let f = t.spec_file_name(token);
            &&& forall|i: int| 0 <= i < f.len() ==> f[i] != '/'
            &&& forall|i: int| 0 <= i < f.len() && f[i] == '.' ==> i == f.len() - 5
        }),
{
    let (t, token) = spec_parse_mirror_url(url, settings).unwrap();
    lemma_label_token(t);
    assert(all_token_chars(seq!['_']));
    lemma_all_token_concat(token, seq!['_']);
    lemma_all_token_concat(token + seq!['_'], t.label());
    let n = t.spec_name(token);
    assert(n =~= token + seq!['_'] + t.label());
    let f = t.spec_file_name(token);
    assert(f =~= n + crate::image_type::webp_extension());
    assert forall|i: int| 0 <= i < f.len() implies f[i] != '/' && (f[i] == '.' ==> i == f.len() - 5) by {
        if i < n.len() {
            assert(f[i] == n[i]);
            assert(is_token_char(n[i]));
        } else {
            assert(f[i] == crate::image_type::webp_extension()[i - n.len()]);
        }
    }
}

} // verus!

verus! {

/// Whether a mirror URL belongs in a cached-images answer: it names an image whose local
/// file exists.
pub open spec fn url_is_cached(url: Seq<char>, on_disk: spec_fn(Seq<char>) -> bool, settings: Settings) -> bool {
    spec_parse_mirror_url(url, settings) matches Some((t, token)) && on_disk(
        t.spec_local_path(token, settings),
    )
}

/// The public URL that a mirror URL names.
pub open spec fn cached_extern_path(url: Seq<char>, settings: Settings) -> Seq<char> {
    let (t, token) = spec_parse_mirror_url(url, settings).unwrap();
    t.spec_extern_path(token, settings)
}

/// The lookup after the URLs of a request were taken in order, each as `candidate` and
/// `record` take it: recorded when not recorded yet, a mirror URL, and on disk.
pub open spec fn lookup_after(
    urls: Seq<Seq<char>>,
    on_disk: spec_fn(Seq<char>) -> bool,
    settings: Settings,
) -> Map<Seq<char>, Seq<char>>
    decreases urls.len(),
{
    if urls.len() == 0 {
        Map::empty()
    } else {
        let m = lookup_after(urls.drop_last(), on_disk, settings);
        let u = urls.last();
        if !m.contains_key(u) && url_is_cached(u, on_disk, settings) {
            m.insert(u, cached_extern_path(u, settings))
        } else {
            m
        }
    }
}

/// The answer to a whole cached-images request: exactly the distinct requested URLs that
/// are mirror URLs of images on disk, each mapped to its stored image's public URL.
pub proof fn lemma_cached_answer(
    urls: Seq<Seq<char>>,
    on_disk: spec_fn(Seq<char>) -> bool,
    settings: Settings,
)
    ensures
        lookup_after(urls, on_disk, settings) == Map::new(
            |u: Seq<char>| urls.contains(u) && url_is_cached(u, on_disk, settings),
            |u: Seq<char>| cached_extern_path(u, settings),
        ),
    decreases urls.len(),
{
    let target = Map::new(
        |u: Seq<char>| urls.contains(u) && url_is_cached(u, on_disk, settings),
        |u: Seq<char>| cached_extern_path(u, settings),
    );
    if urls.len() == 0 {
        assert(lookup_after(urls, on_disk, settings) =~= target);
    } else {
        let prev = urls.drop_last();
        lemma_cached_answer(prev, on_disk, settings);
        let m = lookup_after(prev, on_disk, settings);
        let r = lookup_after(urls, on_disk, settings);
        assert forall|u: Seq<char>| #[trigger] urls.contains(u) <==> (prev.contains(u) || u == urls.last()) by {
            if urls.contains(u) {
                let i = choose|i: int| 0 <= i < urls.len() && urls[i] == u;
                if i < urls.len() - 1 {
                    assert(prev[i] == u);
                }
            }
            if prev.contains(u) {
                let i = choose|i: int| 0 <= i < prev.len() && prev[i] == u;
                assert(urls[i] == u);
            }
            if u == urls.last() {
                assert(urls[urls.len() - 1] == u);
            }
        }
        assert(r =~= target);
    }
}

} // verus!
