//! The kinds of stored images and the names and paths they are stored under.

use vstd::prelude::*;
use vstd::string::StringExecFns;
use crate::config::Settings;
use crate::text::{decimal, push_char, push_decimal, lemma_decimal, lemma_decimal_injective, lemma_split_digits};

verus! {

/// How an image is stored: as downloaded, or as a bounded thumbnail.
#[derive(Debug, Clone, Copy, PartialEq, Eq, Structural)]
pub enum ImageType {
    Normal,
    Thumbnail { nwidth: u32, nheight: u32, quality: u32, lossless: bool },
}

/// `normal`
pub open spec fn normal_word() -> Seq<char> {
    seq!['n', 'o', 'r', 'm', 'a', 'l']
}

/// `thumbnail_`
pub open spec fn thumbnail_word() -> Seq<char> {
    seq!['t', 'h', 'u', 'm', 'b', 'n', 'a', 'i', 'l', '_']
}

/// `_lossless_q`
pub open spec fn lossless_quality_word() -> Seq<char> {
    seq!['_', 'l', 'o', 's', 's', 'l', 'e', 's', 's', '_', 'q']
}

/// `_q`
pub open spec fn quality_word() -> Seq<char> {
    seq!['_', 'q']
}

/// `.webp`
pub open spec fn webp_extension() -> Seq<char> {
    seq!['.', 'w', 'e', 'b', 'p']
}

impl ImageType {
    /// The text that names an image type inside stored file names:
    /// `normal`, `thumbnail_{w}_{h}_q{q}` or `thumbnail_{w}_{h}_lossless_q{q}`.
    pub open spec fn label(self) -> Seq<char> {
        match self {
            ImageType::Normal => normal_word(),
            ImageType::Thumbnail { nwidth, nheight, quality, lossless } => thumbnail_word()
                + decimal(nwidth as nat) + seq!['_'] + decimal(nheight as nat) + (if lossless {
                lossless_quality_word()
            } else {
                quality_word()
            }) + decimal(quality as nat),
        }
    }

    /// `{name}_{label}`
    pub open spec fn spec_name(self, name: Seq<char>) -> Seq<char> {
        name + seq!['_'] + self.label()
    }

    /// `{name}_{label}.webp`
    pub open spec fn spec_file_name(self, name: Seq<char>) -> Seq<char> {
        self.spec_name(name) + webp_extension()
    }

    /// Where a stored image is served from.
    pub open spec fn spec_extern_path(self, name: Seq<char>, settings: Settings) -> Seq<char> {
        settings.extern_location@ + self.spec_file_name(name)
    }

    /// Where a stored image is written to.
    pub open spec fn spec_local_path(self, name: Seq<char>, settings: Settings) -> Seq<char> {
        settings.local_location@ + self.spec_file_name(name)
    }

    /// The small thumbnail type of the given settings.
    pub open spec fn spec_small(settings: Settings) -> ImageType {
        ImageType::Thumbnail {
            nwidth: settings.small_width,
            nheight: (settings.small_width * settings.height_multiplier) as u32,
            quality: 100,
            lossless: false,
        }
    }

    /// The medium thumbnail type of the given settings.
    pub open spec fn spec_medium(settings: Settings) -> ImageType {
        ImageType::Thumbnail {
            nwidth: settings.medium_width,
            nheight: (settings.medium_width * settings.height_multiplier) as u32,
            quality: 100,
            lossless: false,
        }
    }

    /// The small thumbnail type: bounded by the small width and that width times the
    /// height multiplier, encoded at quality 100 and not lossless.
    pub fn small(settings: &Settings) -> (t: ImageType)
        requires
            settings.wf(),
        ensures
            t == Self::spec_small(*settings),
    {
        ImageType::Thumbnail {
            nwidth: settings.small_width,
            nheight: settings.small_width * settings.height_multiplier,
            quality: 100,
            lossless: false,
        }
    }

    /// The medium thumbnail type: bounded by the medium width and that width times the
    /// height multiplier, encoded at quality 100 and not lossless.
    pub fn medium(settings: &Settings) -> (t: ImageType)
        requires
            settings.wf(),
        ensures
            t == Self::spec_medium(*settings),
    {
        ImageType::Thumbnail {
            nwidth: settings.medium_width,
            nheight: settings.medium_width * settings.height_multiplier,
            quality: 100,
            lossless: false,
        }
    }

    /// The small and medium thumbnail types are bounded by their own width and by that
    /// width times the height multiplier, whatever the other width is.
    pub proof fn lemma_thumbnail_bounds(settings: Settings)
        requires
            settings.wf(),
        ensures
            Self::spec_small(settings) matches ImageType::Thumbnail { nwidth, nheight, .. }
                && nwidth == settings.small_width
                && nheight == settings.small_width * settings.height_multiplier,
            Self::spec_medium(settings) matches ImageType::Thumbnail { nwidth, nheight, .. }
                && nwidth == settings.medium_width
                && nheight == settings.medium_width * settings.height_multiplier,
    {
    }

    /// Appends the label of this type to `out`.
    fn push_label(&self, out: &mut String)
        ensures
            final(out)@ == old(out)@ + self.label(),
    {
        match *self {
            ImageType::Normal => {
                out.append("normal");
                proof {
                    reveal_strlit("normal");
                }
                assert(out@ =~= old(out)@ + self.label());
            },
            ImageType::Thumbnail { nwidth, nheight, quality, lossless } => {
                out.append("thumbnail_");
                push_decimal(out, nwidth);
                push_char(out, '_');
                push_decimal(out, nheight);
                if lossless {
                    out.append("_lossless_q");
                } else {
                    out.append("_q");
                }
                push_decimal(out, quality);
                proof {
                    reveal_strlit("thumbnail_");
                    reveal_strlit("_lossless_q");
                    reveal_strlit("_q");
                }
                assert(out@ =~= old(out)@ + self.label());
            },
        }
    }

    /// The label of this type, as its `Display` form writes it.
    pub fn to_string(&self) -> (s: String)
        ensures
            s@ == self.label(),
    {
        let mut s = String::new();
        self.push_label(&mut s);
        assert(s@ =~= self.label());
        s
    }

    /// `{name}_{label}`
    pub fn name(&self, name: &String) -> (s: String)
        ensures
            s@ == self.spec_name(name@),
    {
        let mut s = name.clone();
        push_char(&mut s, '_');
        self.push_label(&mut s);
        assert(s@ =~= self.spec_name(name@));
        s
    }

    /// `{name}_{label}.webp`
    pub fn file_name(&self, name: &String) -> (s: String)
        ensures
            s@ == self.spec_file_name(name@),
    {
        let mut s = self.name(name);
        s.append(".webp");
        proof {
            reveal_strlit(".webp");
        }
        assert(s@ =~= self.spec_file_name(name@));
        s
    }

    /// The quality the type is encoded at: 100 for `Normal`.
    pub fn quality(&self) -> (q: u32)
        ensures
            q == match *self {
                ImageType::Normal => 100,
                ImageType::Thumbnail { quality, .. } => quality,
            },
    {
        match self {
            ImageType::Normal => 100,
            ImageType::Thumbnail { quality, .. } => *quality,
        }
    }

    /// Whether the type is encoded losslessly: never for `Normal`.
    pub fn lossless(&self) -> (l: bool)
        ensures
            l == match *self {
                ImageType::Normal => false,
                ImageType::Thumbnail { lossless, .. } => lossless,
            },
    {
        match self {
            ImageType::Normal => false,
            ImageType::Thumbnail { lossless, .. } => *lossless,
        }
    }

    /// The public URL of the stored image: the external location followed by the file name.
    pub fn extern_path(&self, name: &String, settings: &Settings) -> (s: String)
        ensures
            s@ == self.spec_extern_path(name@, *settings),
    {
        let mut s = settings.extern_location.clone();
        let f = self.file_name(name);
        s.append(f.as_str());
        s
    }

    /// The local path of the stored image: the local location followed by the file name.
    pub fn local_path(&self, name: &String, settings: &Settings) -> (s: String)
        ensures
            s@ == self.spec_local_path(name@, *settings),
    {
        let mut s = settings.local_location.clone();
        let f = self.file_name(name);
        s.append(f.as_str());
        s
    }
}

} // verus!

verus! {

/// The thumbnail label after its leading word.
pub open spec fn thumbnail_tail(nwidth: u32, nheight: u32, quality: u32, lossless: bool) -> Seq<char> {
    decimal(nwidth as nat) + seq!['_'] + decimal(nheight as nat) + (if lossless {
        lossless_quality_word()
    } else {
        quality_word()
    }) + decimal(quality as nat)
}

#[verifier::rlimit(60)]
proof fn lemma_thumbnail_tail_injective(
    w1: u32, h1: u32, q1: u32, l1: bool,
    w2: u32, h2: u32, q2: u32, l2: bool,
)
    requires
        thumbnail_tail(w1, h1, q1, l1) == thumbnail_tail(w2, h2, q2, l2),
    ensures
        w1 == w2 && h1 == h2 && q1 == q2 && l1 == l2,
{
    lemma_decimal(w1 as nat);
    lemma_decimal(w2 as nat);
    lemma_decimal(h1 as nat);
    lemma_decimal(h2 as nat);
    let tail1 = if l1 { lossless_quality_word() } else { quality_word() };
    let tail2 = if l2 { lossless_quality_word() } else { quality_word() };
    let t1 = tail1.skip(1) + decimal(q1 as nat);
    let t2 = tail2.skip(1) + decimal(q2 as nat);
    let rest1 = decimal(h1 as nat) + seq!['_'] + t1;
    let rest2 = decimal(h2 as nat) + seq!['_'] + t2;
    assert(thumbnail_tail(w1, h1, q1, l1) =~= decimal(w1 as nat) + seq!['_'] + rest1);
    assert(thumbnail_tail(w2, h2, q2, l2) =~= decimal(w2 as nat) + seq!['_'] + rest2);
    lemma_split_digits(decimal(w1 as nat), rest1, decimal(w2 as nat), rest2, '_');
    lemma_decimal_injective(w1 as nat, w2 as nat);
    lemma_split_digits(decimal(h1 as nat), t1, decimal(h2 as nat), t2, '_');
    lemma_decimal_injective(h1 as nat, h2 as nat);
    if l1 != l2 {
        assert(t1[0] != t2[0]);
    }
    assert(decimal(q1 as nat) =~= t1.skip(tail1.len() - 1));
    assert(decimal(q2 as nat) =~= t2.skip(tail2.len() - 1));
    lemma_decimal_injective(q1 as nat, q2 as nat);
}

/// Distinct image types carry distinct labels, so their stored files never share a name.
#[verifier::rlimit(60)]
pub proof fn lemma_label_injective(a: ImageType, b: ImageType)
    requires
        a.label() == b.label(),
    ensures
        a == b,
{
    match a {
        ImageType::Normal => {
            if let ImageType::Thumbnail { .. } = b {
                assert(a.label()[0] == 'n');
                assert(b.label()[0] == 't');
            }
        },
        ImageType::Thumbnail { nwidth: w1, nheight: h1, quality: q1, lossless: l1 } => {
            match b {
                ImageType::Normal => {
                    assert(a.label()[0] == 't');
                    assert(b.label()[0] == 'n');
                },
                ImageType::Thumbnail { nwidth: w2, nheight: h2, quality: q2, lossless: l2 } => {
                    assert(a.label() =~= thumbnail_word() + thumbnail_tail(w1, h1, q1, l1));
                    assert(b.label() =~= thumbnail_word() + thumbnail_tail(w2, h2, q2, l2));
                    assert(thumbnail_tail(w1, h1, q1, l1) =~= a.label().skip(10));
                    assert(thumbnail_tail(w2, h2, q2, l2) =~= b.label().skip(10));
                    lemma_thumbnail_tail_injective(w1, h1, q1, l1, w2, h2, q2, l2);
                },
            }
        },
    }
}

} // verus!

verus! {

/// A decoded image of the `image` crate.
#[verifier::external_type_specification]
#[verifier::external_body]
pub struct ExDynamicImage(image::DynamicImage);

/// An error of the `image` crate, met while reading or decoding an image.
#[verifier::external_type_specification]
#[verifier::external_body]
pub struct ExImageError(image::ImageError);

/// The image that `DynamicImage::thumbnail` of the `image` crate makes of `image` for
/// the bounds `nwidth` by `nheight`.
pub uninterp spec fn thumbnailed(image: image::DynamicImage, nwidth: u32, nheight: u32) -> image::DynamicImage;

/// `DynamicImage::thumbnail` of the `image` crate: the image scaled, aspect ratio kept,
/// to the largest size that fits `nwidth` by `nheight`. The result is claimed to be a
/// function of the image and the bounds only; nothing is claimed of its pixels or size.
#[verifier::external_body]
fn thumbnail(image: &image::DynamicImage, nwidth: u32, nheight: u32) -> (r: image::DynamicImage)
    ensures
        r == thumbnailed(*image, nwidth, nheight),
{
    image.thumbnail(nwidth, nheight)
}

/// The most bytes that the decoder may allocate at once for one image: 256 MiB.
pub const DECODER_MAX_ALLOC: u64 = 268435456u64;

/// What the `image` crate makes of the encoded image `bytes`, its format guessed from
/// their first bytes, with at most `max_alloc` bytes allocated by the decoder at once.
pub uninterp spec fn decoded_image(bytes: Seq<u8>, max_alloc: u64) -> Result<image::DynamicImage, image::ImageError>;

/// `ImageReader::new` over a cursor on `bytes`, `with_guessed_format`, `limits` with
/// `max_alloc` in place of the default allocation bound, then `decode`, of the `image`
/// crate. An I/O error of the format guess is carried as `ImageError::IoError`. The
/// result, image or error, is claimed to be a function of the bytes and the bound only;
/// nothing is claimed of which bytes decode or of the image they give.
#[verifier::external_body]
fn decode_image_bytes(bytes: &[u8], max_alloc: u64) -> (r: Result<image::DynamicImage, image::ImageError>)
    ensures
        r == decoded_image(bytes@, max_alloc),
{
    let mut reader = match image::ImageReader::new(std::io::Cursor::new(bytes)).with_guessed_format() {
        Ok(reader) => reader,
        Err(e) => return Err(image::ImageError::IoError(e)),
    };
    let mut limits = image::Limits::default();
    limits.max_alloc = Some(max_alloc);
    reader.limits(limits);
    reader.decode()
}

/// Decodes a downloaded image held in memory, its format guessed from its first bytes,
/// with the decoder's allocations bounded by `DECODER_MAX_ALLOC`.
pub fn decode_remote_image(bytes: &[u8]) -> (r: Result<image::DynamicImage, image::ImageError>)
    ensures
        r == decoded_image(bytes@, DECODER_MAX_ALLOC),
{
    decode_image_bytes(bytes, DECODER_MAX_ALLOC)
}

/// The file formats that an image can be written in, as the `image` crate names them.
#[derive(Debug, Clone, Copy, PartialEq, Eq, Structural)]
pub enum FileFormat {
    Png,
    Jpeg,
    Gif,
    WebP,
    Pnm,
    Tiff,
    Tga,
    Dds,
    Bmp,
    Ico,
    Hdr,
    OpenExr,
    Farbfeld,
    Avif,
    Qoi,
}

impl ImageType {
    /// The format that images of every type are stored in: WebP.
    pub fn file_format(&self) -> (f: FileFormat)
        ensures
            f == FileFormat::WebP,
    {
        FileFormat::WebP
    }

    /// Brings a decoded image to this type: a `Normal` image is kept as it is, a
    /// thumbnail is scaled to fit its width and height bounds.
    pub fn process_image(&self, image: image::DynamicImage) -> (r: image::DynamicImage)
        ensures
            r == match *self {
                ImageType::Normal => image,
                ImageType::Thumbnail { nwidth, nheight, .. } => thumbnailed(image, nwidth, nheight),
            },
    {
        match self {
            ImageType::Normal => image,
            ImageType::Thumbnail { nwidth, nheight, .. } => thumbnail(&image, *nwidth, *nheight),
        }
    }
}

} // verus!

verus! {

/// No `n` or `t` follows a `_`: a label can only start at the front of another label.
pub open spec fn no_word_after_underscore(s: Seq<char>) -> bool {
    forall|k: int| 1 <= k < s.len() && s[k - 1] == '_' ==> #[trigger] s[k] != 'n' && s[k] != 't'
}

proof fn lemma_no_word_concat(a: Seq<char>, b: Seq<char>)
    requires
        no_word_after_underscore(a),
        no_word_after_underscore(b),
        a.len() > 0 && b.len() > 0 && a.last() == '_' ==> b[0] != 'n' && b[0] != 't',
    ensures
        no_word_after_underscore(a + b),
{
    let s = a + b;
    assert forall|k: int| 1 <= k < s.len() && s[k - 1] == '_' implies #[trigger] s[k] != 'n' && s[k] != 't' by {
        if k < a.len() {
            assert(s[k] == a[k] && s[k - 1] == a[k - 1]);
        } else if k == a.len() {
            assert(s[k] == b[0] && s[k - 1] == a.last());
        } else {
            assert(s[k] == b[k - a.len()] && s[k - 1] == b[k - 1 - a.len()]);
        }
    }
}

proof fn lemma_decimal_no_word(n: nat)
    ensures
        no_word_after_underscore(decimal(n)),
        decimal(n).len() > 0,
        crate::text::is_digit_char(decimal(n)[0]),
        crate::text::is_digit_char(decimal(n).last()),
{
    lemma_decimal(n);
    assert(crate::text::is_digit_char(decimal(n)[0]));
    assert(crate::text::is_digit_char(decimal(n)[decimal(n).len() - 1]));
    assert forall|k: int| 1 <= k < decimal(n).len() && decimal(n)[k - 1] == '_' implies #[trigger] decimal(n)[k] != 'n'
        && decimal(n)[k] != 't' by {
        assert(crate::text::is_digit_char(decimal(n)[k - 1]));
    }
}

proof fn lemma_label_shape(t: ImageType)
    ensures
        no_word_after_underscore(t.label()),
        t.label().len() > 0,
        t.label()[0] == 'n' || t.label()[0] == 't',
{
    match t {
        ImageType::Normal => {
            assert(no_word_after_underscore(normal_word()));
        },
        ImageType::Thumbnail { nwidth, nheight, quality, lossless } => {
            let tail = if lossless { lossless_quality_word() } else { quality_word() };
            assert(no_word_after_underscore(thumbnail_word()));
            assert(no_word_after_underscore(seq!['_']));
            assert(no_word_after_underscore(lossless_quality_word()));
            assert(no_word_after_underscore(quality_word()));
            lemma_decimal_no_word(nwidth as nat);
            lemma_decimal_no_word(nheight as nat);
            lemma_decimal_no_word(quality as nat);
            let a = thumbnail_word() + decimal(nwidth as nat);
            lemma_no_word_concat(thumbnail_word(), decimal(nwidth as nat));
            let b = a + seq!['_'];
            lemma_no_word_concat(a, seq!['_']);
            let c = b + decimal(nheight as nat);
            lemma_no_word_concat(b, decimal(nheight as nat));
            let d = c + tail;
            assert(c.last() == decimal(nheight as nat).last());
            lemma_no_word_concat(c, tail);
            assert(d.last() == 'q');
            lemma_no_word_concat(d, decimal(quality as nat));
            assert(t.label() =~= d + decimal(quality as nat));
        },
    }
}

/// A name joined to a label can be split back into that name and label only.
proof fn lemma_name_injective(t1: ImageType, n1: Seq<char>, t2: ImageType, n2: Seq<char>)
    requires
        t1.spec_name(n1) == t2.spec_name(n2),
    ensures
        t1 == t2,
        n1 == n2,
{
    let s = t1.spec_name(n1);
    let l1 = t1.label();
    let l2 = t2.label();
    lemma_label_shape(t1);
    lemma_label_shape(t2);
    assert(s =~= n1 + seq!['_'] + l1);
    assert(t2.spec_name(n2) =~= n2 + seq!['_'] + l2);
    if l1.len() < l2.len() {
        let p = s.len() - l1.len();
        let k = p - (s.len() - l2.len());
        assert(s[p - 1] == '_');
        assert(s[p] == l1[0]);
        assert(l2[k - 1] == s[p - 1]);
        assert(l2[k] == s[p]);
        assert(false);
    } else if l2.len() < l1.len() {
        let p = s.len() - l2.len();
        let k = p - (s.len() - l1.len());
        assert(s[p - 1] == '_');
        assert(s[p] == l2[0]);
        assert(l1[k - 1] == s[p - 1]);
        assert(l1[k] == s[p]);
        assert(false);
    }
    assert(l1 =~= s.skip(s.len() - l1.len()));
    assert(l2 =~= s.skip(s.len() - l2.len()));
    lemma_label_injective(t1, t2);
    assert(n1 =~= s.take(n1.len() as int));
    assert(n2 =~= s.take(n2.len() as int));
}

/// Distinct (type, name) pairs never share a stored file: equal local paths come from
/// equal types and equal names.
pub proof fn lemma_local_path_injective(
    t1: ImageType,
    n1: Seq<char>,
    t2: ImageType,
    n2: Seq<char>,
    settings: Settings,
)
    requires
        t1.spec_local_path(n1, settings) == t2.spec_local_path(n2, settings),
    ensures
        t1 == t2,
        n1 == n2,
{
    let loc = settings.local_location@;
    let p = t1.spec_local_path(n1, settings);
    let a = t1.spec_name(n1);
    let b = t2.spec_name(n2);
    assert(p =~= loc + a + webp_extension());
    assert(t2.spec_local_path(n2, settings) =~= loc + b + webp_extension());
    assert(a =~= p.subrange(loc.len() as int, p.len() - 5));
    assert(b =~= p.subrange(loc.len() as int, p.len() - 5));
    lemma_name_injective(t1, n1, t2, n2);
}

} // verus!
