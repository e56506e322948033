//! What can be told of a raw asset: its media type, its pixel dimensions,
//! its dominant colours.

use palette::FromColor;
use vstd::prelude::*;
use crate::text::{contains, digit_char, has_infix, opt_text, push_char, texts};

verus! {

/// The media type that the table of known file extensions gives for a path,
/// if the path has an extension and the table knows it.
pub uninterp spec fn guessed_media_type(file_path: Seq<char>) -> Option<Seq<char>>;

/// Looks a path's extension up in the table of known media types.
///
/// Trusted: `mime_guess::from_path` reads nothing but the path, takes its
/// extension and looks it up, case-insensitively, in a fixed table; `first`
/// is the table's preferred type for that extension, or nothing for a path
/// without a known extension.
#[verifier::external_body]
fn guess_media_type(file_path: &str) -> (guess: Option<String>)
    ensures
        opt_text(guess) == guessed_media_type(file_path@),
{
    mime_guess::from_path(file_path).first().map(|m| m.to_string())
}

/// The media type recorded for a guess: the guess itself, or the generic
/// binary type where there is none.
pub open spec fn media_type_text(guess: Option<Seq<char>>) -> Seq<char> {
    match guess {
        Some(t) => t,
        None => "application/octet-stream"@,
    }
}

/// The media type to record for the outcome of a lookup.
pub fn media_type_or_default(guess: Option<String>) -> (media_type: String)
    ensures
        media_type@ == media_type_text(opt_text(guess)),
{
    match guess {
        Some(t) => t,
        None => "application/octet-stream".to_owned(),
    }
}

/// Determines the media type of a file from its extension.
pub fn determine_media_type(file_path: &str) -> (media_type: String)
    ensures
        media_type@ == media_type_text(guessed_media_type(file_path@)),
{
    media_type_or_default(guess_media_type(file_path))
}

/// The width and height of the picture that a file's bytes decode to, in the
/// format that the file's extension names; nothing where the extension names
/// no picture format or the bytes do not decode in it.
pub uninterp spec fn decoded_dimensions(file_path: Seq<char>, media: Seq<u8>) -> Option<(u32, u32)>;

/// The pixel dimensions of a file's content, if it decodes as a still image.
///
/// Trusted: `image::ImageFormat::from_path` picks the format by the path's
/// extension alone, `image::load_from_memory_with_format` decodes the bytes
/// in that format without reading anything else, and `dimensions` gives the
/// decoded picture's width and height. A failure of either step gives
/// nothing.
#[verifier::external_body]
pub fn analyze_dimensions(file_path: &str, media: &[u8]) -> (size: Option<(u32, u32)>)
    ensures
        size == decoded_dimensions(file_path@, media@),
{
    let format = image::ImageFormat::from_path(file_path).ok()?;
    let picture = image::load_from_memory_with_format(media, format).ok()?;
    Some(image::GenericImageView::dimensions(&picture))
}

/// A colour of the screen: red, green and blue, each from 0 to 255.
#[derive(Clone, Copy, Debug, PartialEq, Eq, Structural)]
pub struct Rgb {
    pub red: u8,
    pub green: u8,
    pub blue: u8,
}

/// A colour in the Lab space, as `palette` holds it.
#[verifier::external_type_specification]
#[verifier::external_body]
#[verifier::reject_recursive_types(Wp)]
#[verifier::reject_recursive_types(T)]
pub struct ExLab<Wp, T>(palette::Lab<Wp, T>);

/// The white point under which `palette` reads a Lab colour by default.
#[verifier::external_type_specification]
#[verifier::external_body]
pub struct ExD65(palette::white_point::D65);

/// The error of a conversion that `palette` offers for its colours.
#[verifier::external_type_specification]
#[verifier::external_body]
pub struct ExTryFromSliceError(core::array::TryFromSliceError);

/// The hasher of the colour cache.
#[verifier::external_type_specification]
#[verifier::external_body]
pub struct ExFxHasher(fxhash::FxHasher);

/// The maker of the colour cache's hashers.
#[verifier::external_type_specification]
#[verifier::external_body]
#[verifier::reject_recursive_types(H)]
pub struct ExBuildHasherDefault<H>(core::hash::BuildHasherDefault<H>);

/// What a Lab colour holds: the bit patterns of its lightness and of its two
/// colour axes.
#[derive(Clone, Copy, Debug, PartialEq, Eq, Structural)]
pub struct LabBits {
    pub l: u32,
    pub a: u32,
    pub b: u32,
}

/// What a Lab colour of `palette` holds.
pub uninterp spec fn lab_bits(lab: palette::Lab) -> LabBits;

/// The Lab colour of a screen colour.
pub uninterp spec fn lab_of(color: Rgb) -> LabBits;

/// The screen colour of a Lab colour.
pub uninterp spec fn rgb_of(lab: LabBits) -> Rgb;

/// What each Lab colour of a list holds.
pub open spec fn labs_bits(labs: Seq<palette::Lab>) -> Seq<LabBits> {
    labs.map_values(|lab: palette::Lab| lab_bits(lab))
}

/// The Lab colour of each screen colour of a list.
pub open spec fn labs_of(colors: Seq<Rgb>) -> Seq<LabBits> {
    colors.map_values(|color: Rgb| lab_of(color))
}

/// Whether a bit pattern is that of a number: of anything but a
/// not-a-number, which has all bits of the exponent set and some bit of the
/// fraction.
pub open spec fn is_number(bits: u32) -> bool {
    !((bits / 0x80_0000) % 0x100 == 0xff && bits % 0x80_0000 != 0)
}

impl LabBits {
    /// Whether the three components are numbers.
    pub open spec fn is_numbers(self) -> bool {
        is_number(self.l) && is_number(self.a) && is_number(self.b)
    }

    /// Whether the colour is the Lab colour of some screen colour.
    pub open spec fn is_screen_color(self) -> bool {
        exists|color: Rgb| self == #[trigger] lab_of(color)
    }
}

/// Whether every Lab colour of a list is that of some screen colour.
pub open spec fn are_screen_colors(labs: Seq<LabBits>) -> bool {
    forall|i: int| 0 <= i < labs.len() ==> (#[trigger] labs[i]).is_screen_color()
}

/// Whether the components of every Lab colour of a list are numbers.
pub open spec fn are_numbers(labs: Seq<LabBits>) -> bool {
    forall|i: int| 0 <= i < labs.len() ==> (#[trigger] labs[i]).is_numbers()
}

/// The cache of the Lab colours already computed, keyed by screen colour.
pub type ColorCache = fxhash::FxHashMap<[u8; 3], palette::Lab>;

/// What a colour cache holds: the Lab colour stored for each screen colour.
pub uninterp spec fn cache_entries(cache: ColorCache) -> Map<Rgb, palette::Lab>;

/// An empty colour cache.
///
/// Trusted: `FxHashMap::default` makes a map without entries.
#[verifier::external_body]
fn new_cache() -> (made: ColorCache)
    ensures
        cache_entries(made).dom() == Set::<Rgb>::empty(),
{
    fxhash::FxHashMap::default()
}

/// The Lab colour that the cache holds for a screen colour, if any.
///
/// Trusted: `HashMap::get` returns the value stored under the key, and
/// nothing for a key that the map does not hold.
#[verifier::external_body]
fn cache_lookup(cache: &ColorCache, color: Rgb) -> (hit: Option<
    palette::Lab,
>)
    ensures
        match hit {
            Some(lab) => cache_entries(*cache).contains_key(color) && cache_entries(*cache)[color]
                == lab,
            None => !cache_entries(*cache).contains_key(color),
        },
{
    cache.get(&[color.red, color.green, color.blue]).copied()
}

/// Stores the Lab colour of a screen colour in the cache.
///
/// Trusted: `HashMap::insert` stores the value under the key, in place of
/// what the key had, and leaves every other entry as it was.
#[verifier::external_body]
fn cache_store(cache: &mut ColorCache, color: Rgb, lab: palette::Lab)
    ensures
        cache_entries(*final(cache)) == cache_entries(*old(cache)).insert(color, lab),
{
    cache.insert([color.red, color.green, color.blue], lab);
}

/// Converts a screen colour to the Lab space.
///
/// Trusted: `palette` linearises the sRGB colour and converts it to Lab
/// under the D65 white point; the result depends on the colour alone.
#[verifier::external_body]
fn srgb_to_lab(color: Rgb) -> (lab: palette::Lab)
    ensures
        lab_bits(lab) == lab_of(color),
{
    palette::IntoColor::into_color(
        palette::Srgb::new(color.red, color.green, color.blue).into_linear(),
    )
}

/// Converts a Lab colour back to a screen colour.
///
/// Trusted: `palette` converts the Lab colour to sRGB and rounds each
/// component into 0..=255; the result depends on the colour alone.
#[verifier::external_body]
fn lab_to_srgb(lab: &palette::Lab) -> (color: Rgb)
    ensures
        color == rgb_of(lab_bits(*lab)),
{
    let color: palette::Srgb<u8> = palette::Srgb::from_color(*lab).into_format();
    Rgb { red: color.red, green: color.green, blue: color.blue }
}

/// Converts screen colours to the Lab space and appends them to
/// `lab_pixels`, converting each distinct colour once: the cache is asked
/// first, and filled with the Lab colour of what it did not hold.
pub fn cached_srgba_to_lab(
    rgb: &Vec<Rgb>,
    map: &mut ColorCache,
    lab_pixels: &mut Vec<palette::Lab>,
)
    ensures
        final(lab_pixels)@.len() == old(lab_pixels)@.len() + rgb@.len(),
        final(lab_pixels)@.subrange(0, old(lab_pixels)@.len() as int) == old(lab_pixels)@,
        forall|i: int|
            0 <= i < rgb@.len() ==> cache_entries(*final(map)).contains_key(#[trigger] rgb@[i])
                && final(lab_pixels)@[old(lab_pixels)@.len() + i] == cache_entries(*final(map))[rgb@[i]],
        forall|c: Rgb| #[trigger]
            cache_entries(*old(map)).contains_key(c) ==> cache_entries(*final(map)).contains_key(c)
                && cache_entries(*final(map))[c] == cache_entries(*old(map))[c],
        forall|c: Rgb| #[trigger]
            cache_entries(*final(map)).contains_key(c) ==> cache_entries(*old(map)).contains_key(c)
                || (rgb@.contains(c) && lab_bits(cache_entries(*final(map))[c]) == lab_of(c)),
{
    let mut i: usize = 0;
    while i < rgb.len()
        invariant
            0 <= i <= rgb.len(),
            lab_pixels@.len() == old(lab_pixels)@.len() + i,
            lab_pixels@.subrange(0, old(lab_pixels)@.len() as int) == old(lab_pixels)@,
            forall|j: int|
                0 <= j < i ==> cache_entries(*map).contains_key(#[trigger] rgb@[j])
                    && lab_pixels@[old(lab_pixels)@.len() + j] == cache_entries(*map)[rgb@[j]],
            forall|c: Rgb| #[trigger]
                cache_entries(*old(map)).contains_key(c) ==> cache_entries(*map).contains_key(c)
                    && cache_entries(*map)[c] == cache_entries(*old(map))[c],
            forall|c: Rgb| #[trigger]
                cache_entries(*map).contains_key(c) ==> cache_entries(*old(map)).contains_key(c)
                    || (rgb@.contains(c) && lab_bits(cache_entries(*map)[c]) == lab_of(c)),
        decreases rgb.len() - i,
    {
        let color = rgb[i];
        let lab = match cache_lookup(map, color) {
            Some(lab) => lab,
            None => {
                let lab = srgb_to_lab(color);
                cache_store(map, color, lab);
                lab
            },
        };
        lab_pixels.push(lab);
        i = i + 1;
    }
}

/// Whether a file decodes to a picture that has pixels.
pub open spec fn has_pixels(file_path: Seq<char>, media: Seq<u8>) -> bool {
    match decoded_dimensions(file_path, media) {
        Some(size) => size.0 >= 1 && size.1 >= 1,
        None => false,
    }
}

/// The pixels of the picture that a file decodes to, row by row, after the
/// picture was scaled, keeping its proportions, to fit `width` by `height`.
pub uninterp spec fn sampled_pixels(file_path: Seq<char>, media: Seq<u8>, width: u32, height: u32) -> Option<Seq<Rgb>>;

/// The pixels of a file's picture after it was scaled, keeping its
/// proportions, to fit `width` by `height`.
///
/// Trusted: the picture is decoded by the two calls of
/// `analyze_dimensions` on the same path and bytes, so it decodes here
/// wherever it does there. `DynamicImage::resize` with the triangle filter
/// scales a picture that has pixels to the largest size that fits the
/// bounds, at least one pixel each way, and `into_rgb8` gives one red,
/// green and blue byte per pixel; neither of the two can fail, and the
/// result depends on the arguments alone.
#[verifier::external_body]
fn sample_pixels(file_path: &str, media: &[u8], width: u32, height: u32) -> (pixels: Option<
    Vec<Rgb>,
>)
    requires
        width >= 1,
        height >= 1,
        has_pixels(file_path@, media@),
    ensures
        pixels is Some,
        Some(pixels->Some_0@) == sampled_pixels(file_path@, media@, width, height),
        1 <= pixels->Some_0@.len() <= width * height,
{
    let format = image::ImageFormat::from_path(file_path).ok()?;
    let picture = image::load_from_memory_with_format(media, format).ok()?;
    let small = picture.resize(width, height, image::imageops::FilterType::Triangle).into_rgb8();
    Some(small.pixels().map(|p| Rgb { red: p.0[0], green: p.0[1], blue: p.0[2] }).collect())
}

/// The outcome of one clustering run.
pub struct ClusterRun {
    /// How far the centres still moved in the last round, as the bit
    /// pattern of a non-negative number: a smaller pattern is a smaller
    /// score.
    pub score: u32,
    /// The centres of the clusters.
    pub centroids: Vec<palette::Lab>,
    /// For each pixel, the index of the centre it belongs to.
    pub indices: Vec<u8>,
}

/// The outcome of a clustering run as a mathematical value.
#[verifier::ext_equal]
pub struct RunView {
    pub score: u32,
    pub centroids: Seq<LabBits>,
    pub indices: Seq<u8>,
}

impl View for ClusterRun {
    type V = RunView;

    open spec fn view(&self) -> RunView {
        RunView {
            score: self.score,
            centroids: labs_bits(self.centroids@),
            indices: self.indices@,
        }
    }
}

impl ClusterRun {
    /// Every pixel belongs to one of the centres.
    pub open spec fn wf(self) -> bool {
        forall|i: int|
            0 <= i < self.indices@.len() ==> (#[trigger] self.indices@[i]) < self.centroids@.len()
    }
}

/// The run that clustering Lab colours around at most `k` centres gives,
/// with the generator seeded by `seed`, after `max_iter` rounds at most, or
/// sooner once the centres move by `converge` at most.
pub uninterp spec fn clustered(k: u8, max_iter: usize, converge: u16, pixels: Seq<LabBits>, seed: u64) -> RunView;

/// The centres, of those given, that own a pixel, by ascending lightness,
/// each with its share of the pixels as the bit pattern of a number between
/// 0 and 1: a larger pattern is a larger share.
pub uninterp spec fn weighed_clusters(centroids: Seq<LabBits>, indices: Seq<u8>) -> Seq<(LabBits, u32)>;

/// What each weighed centre of a list holds.
pub open spec fn weighed_view(weighed: Seq<(palette::Lab, u32)>) -> Seq<(LabBits, u32)> {
    weighed.map_values(|w: (palette::Lab, u32)| (lab_bits(w.0), w.1))
}

/// Clusters Lab colours around at most `k` centres.
///
/// Trusted: `kmeans_colors::get_kmeans_hamerly` seeds its generator with
/// `seed`, picks up to `k` centres among the colours, and moves them until
/// `max_iter` rounds are done or the centres moved by `converge` at most;
/// the result depends on the arguments alone. It returns between one and
/// `k` centres and, for each colour, the index of one of them. A centre is
/// one of the colours, the mean of some of them, or a colour drawn within
/// the bounds of the Lab space, so the centres of screen colours are
/// numbers. It panics on an empty buffer.
#[verifier::external_body]
fn cluster(k: u8, max_iter: usize, converge: u16, pixels: &Vec<palette::Lab>, seed: u64) -> (run:
    ClusterRun)
    requires
        k >= 1,
        pixels@.len() > 0,
    ensures
        run@ == clustered(k, max_iter, converge, labs_bits(pixels@), seed),
        1 <= run.centroids@.len() <= k,
        run.indices@.len() == pixels@.len(),
        run.wf(),
        are_screen_colors(labs_bits(pixels@)) ==> are_numbers(run@.centroids),
{
    let found = kmeans_colors::get_kmeans_hamerly(
        k.into(),
        max_iter,
        converge.into(),
        false,
        pixels,
        seed,
    );
    ClusterRun { score: found.score.to_bits(), centroids: found.centroids, indices: found.indices }
}

/// The centres that own a pixel, each with its share of the pixels.
///
/// Trusted: `Sort::sort_indexed_colors` counts the pixels of each centre,
/// sorts the centres by lightness and returns, for every centre that owns a
/// pixel, the centre and the share; the result depends on the arguments
/// alone. It panics without pixels, and where a lightness is no number.
#[verifier::external_body]
fn weigh_clusters(centroids: &Vec<palette::Lab>, indices: &Vec<u8>) -> (weighed: Vec<
    (palette::Lab, u32),
>)
    requires
        indices@.len() > 0,
        centroids@.len() <= 255,
        forall|i: int| 0 <= i < indices@.len() ==> (#[trigger] indices@[i]) < centroids@.len(),
        are_numbers(labs_bits(centroids@)),
    ensures
        weighed_view(weighed@) == weighed_clusters(labs_bits(centroids@), indices@),
        1 <= weighed@.len() <= centroids@.len(),
{
    let sorted = <palette::Lab as kmeans_colors::Sort>::sort_indexed_colors(centroids, indices);
    sorted.iter().map(|c| (c.centroid, c.percentage.to_bits())).collect()
}

/// The lower-case hexadecimal digit of a value below 16.
pub open spec fn hex_lower(d: nat) -> char {
    if d < 10 {
        digit_char(d)
    } else if d == 10 {
        'a'
    } else if d == 11 {
        'b'
    } else if d == 12 {
        'c'
    } else if d == 13 {
        'd'
    } else if d == 14 {
        'e'
    } else {
        'f'
    }
}

/// A colour as a hex triplet: `#`, then two lower-case hexadecimal digits
/// each for red, green and blue.
pub open spec fn hex_color_text(color: Rgb) -> Seq<char> {
    seq![
        '#',
        hex_lower((color.red / 16) as nat),
        hex_lower((color.red % 16) as nat),
        hex_lower((color.green / 16) as nat),
        hex_lower((color.green % 16) as nat),
        hex_lower((color.blue / 16) as nat),
        hex_lower((color.blue % 16) as nat),
    ]
}

/// Whether a text is the hex triplet of some colour.
pub open spec fn is_hex_color(text: Seq<char>) -> bool {
    exists|color: Rgb| text == #[trigger] hex_color_text(color)
}

fn hex_digit(d: u8) -> (c: char)
    requires
        d < 16,
    ensures
        c == hex_lower(d as nat),
{
    match d {
        0 => '0',
        1 => '1',
        2 => '2',
        3 => '3',
        4 => '4',
        5 => '5',
        6 => '6',
        7 => '7',
        8 => '8',
        9 => '9',
        10 => 'a',
        11 => 'b',
        12 => 'c',
        13 => 'd',
        14 => 'e',
        _ => 'f',
    }
}

/// Writes a colour as a lower-case hex triplet.
pub fn hex_color(color: Rgb) -> (text: String)
    ensures
        text@ == hex_color_text(color),
{
    let mut text = String::new();
    push_char(&mut text, '#');
    push_char(&mut text, hex_digit(color.red / 16));
    push_char(&mut text, hex_digit(color.red % 16));
    push_char(&mut text, hex_digit(color.green / 16));
    push_char(&mut text, hex_digit(color.green % 16));
    push_char(&mut text, hex_digit(color.blue / 16));
    push_char(&mut text, hex_digit(color.blue % 16));
    assert(text@ =~= hex_color_text(color));
    text
}

/// A colour of a palette and the weight of its cluster.
#[derive(Clone, Copy, Debug, PartialEq, Eq, Structural)]
pub struct Swatch {
    pub weight: u32,
    pub color: Rgb,
}

/// A ranking with one more swatch: it stands behind every swatch that
/// weighs at least as much, and before the lighter ones.
pub open spec fn insert_ranked(sorted: Seq<Swatch>, x: Swatch) -> Seq<Swatch>
    decreases sorted.len(),
{
    if sorted.len() == 0 {
        seq![x]
    } else if sorted.last().weight >= x.weight {
        sorted.push(x)
    } else {
        insert_ranked(sorted.drop_last(), x).push(sorted.last())
    }
}

/// The swatches by descending weight; swatches of equal weight keep the
/// order in which they came.
pub open spec fn ranked(swatches: Seq<Swatch>) -> Seq<Swatch>
    decreases swatches.len(),
{
    if swatches.len() == 0 {
        Seq::empty()
    } else {
        insert_ranked(ranked(swatches.drop_last()), swatches.last())
    }
}

proof fn lemma_insert_ranked_at(sorted: Seq<Swatch>, x: Swatch, j: int)
    requires
        0 <= j <= sorted.len(),
        forall|i: int| j <= i < sorted.len() ==> (#[trigger] sorted[i]).weight < x.weight,
        j == 0 || sorted[j - 1].weight >= x.weight,
    ensures
        insert_ranked(sorted, x) == sorted.insert(j, x),
    decreases sorted.len(),
{
    if sorted.len() == 0 {
        assert(sorted.insert(j, x) =~= seq![x]);
    } else if j == sorted.len() {
        assert(sorted.insert(j, x) =~= sorted.push(x));
    } else {
        assert(sorted[sorted.len() - 1].weight < x.weight);
        lemma_insert_ranked_at(sorted.drop_last(), x, j);
        assert(sorted.insert(j, x) =~= sorted.drop_last().insert(j, x).push(sorted.last()));
    }
}

/// Ranks swatches by descending weight.
pub fn rank_swatches(swatches: &Vec<Swatch>) -> (out: Vec<Swatch>)
    ensures
        out@ == ranked(swatches@),
{
    let mut out: Vec<Swatch> = Vec::new();
    let mut i: usize = 0;
    while i < swatches.len()
        invariant
            0 <= i <= swatches.len(),
            out@ == ranked(swatches@.take(i as int)),
            out@.len() <= i,
        decreases swatches.len() - i,
    {
        let x = swatches[i];
        let mut j: usize = out.len();
        while j > 0 && out[j - 1].weight < x.weight
            invariant
                0 <= j <= out.len(),
                forall|t: int| j <= t < out@.len() ==> (#[trigger] out@[t]).weight < x.weight,
            decreases j,
        {
            j = j - 1;
        }
        proof {
            lemma_insert_ranked_at(out@, x, j as int);
            assert(swatches@.take(i as int + 1).drop_last() =~= swatches@.take(i as int));
        }
        out.insert(j, x);
        i = i + 1;
    }
    assert(swatches@.take(swatches.len() as int) =~= swatches@);
    out
}

/// The hex triplets of a palette, most dominant colour first.
pub open spec fn palette_text(swatches: Seq<Swatch>) -> Seq<Seq<char>> {
    ranked(swatches).map_values(|s: Swatch| hex_color_text(s.color))
}

/// Turns weighed colours into a palette: the hex triplets of the colours,
/// by descending weight.
pub fn palette_of(swatches: &Vec<Swatch>) -> (colors: Vec<String>)
    ensures
        texts(colors@) == palette_text(swatches@),
{
    let order = rank_swatches(swatches);
    let mut colors: Vec<String> = Vec::new();
    let mut i: usize = 0;
    while i < order.len()
        invariant
            0 <= i <= order.len(),
            order@ == ranked(swatches@),
            texts(colors@) == palette_text(swatches@).take(i as int),
        decreases order.len() - i,
    {
        let ghost before = colors@;
        colors.push(hex_color(order[i].color));
        assert(texts(colors@) =~= texts(before).push(hex_color_text(order@[i as int].color)));
        assert(palette_text(swatches@).take(i as int + 1) =~= palette_text(swatches@).take(
            i as int,
        ).push(hex_color_text(order@[i as int].color)));
        i = i + 1;
    }
    assert(palette_text(swatches@).take(order.len() as int) =~= palette_text(swatches@));
    colors
}

/// Whether swatches stand by descending weight.
pub open spec fn is_descending(swatches: Seq<Swatch>) -> bool {
    forall|i: int, j: int|
        0 <= i < j < swatches.len() ==> (#[trigger] swatches[i]).weight >= (#[trigger] swatches[j]).weight
}

proof fn lemma_insert_ranked_props(sorted: Seq<Swatch>, x: Swatch)
    requires
        is_descending(sorted),
    ensures
        is_descending(insert_ranked(sorted, x)),
        insert_ranked(sorted, x).to_multiset() == sorted.to_multiset().insert(x),
        insert_ranked(sorted, x).len() == sorted.len() + 1,
        forall|i: int|
            0 <= i < insert_ranked(sorted, x).len() ==> (#[trigger] insert_ranked(sorted, x)[i]) == x
                || sorted.contains(insert_ranked(sorted, x)[i]),
    decreases sorted.len(),
{
    broadcast use vstd::seq_lib::to_multiset_build;

    let out = insert_ranked(sorted, x);
    if sorted.len() == 0 {
        assert(out =~= sorted.push(x));
    } else if sorted.last().weight >= x.weight {
        assert forall|i: int| 0 <= i < out.len() implies out[i] == x || sorted.contains(out[i]) by {
            if i < sorted.len() {
                assert(out[i] == sorted[i]);
            }
        }
    } else {
        let rest = sorted.drop_last();
        assert forall|i: int, j: int| 0 <= i < j < rest.len() implies (#[trigger] rest[i]).weight >= (
        #[trigger] rest[j]).weight by {
            assert(rest[i] == sorted[i] && rest[j] == sorted[j]);
        }
        lemma_insert_ranked_props(rest, x);
        let inner = insert_ranked(rest, x);
        assert(out == inner.push(sorted.last()));
        assert(rest.push(sorted.last()) =~= sorted);
        assert(out.to_multiset() =~= sorted.to_multiset().insert(x));
        assert forall|i: int| 0 <= i < out.len() implies out[i] == x || sorted.contains(out[i]) by {
            if i < inner.len() {
                assert(out[i] == inner[i]);
                if inner[i] != x {
                    let t = choose|t: int| 0 <= t < rest.len() && rest[t] == inner[i];
                    assert(sorted[t] == inner[i]);
                }
            } else {
                assert(out[i] == sorted[sorted.len() - 1]);
            }
        }
        assert forall|i: int, j: int| 0 <= i < j < out.len() implies (#[trigger] out[i]).weight >= (
        #[trigger] out[j]).weight by {
            if j < inner.len() {
                assert(out[i] == inner[i] && out[j] == inner[j]);
            } else {
                assert(out[j] == sorted.last());
                assert(out[i] == inner[i]);
                if inner[i] != x {
                    let t = choose|t: int| 0 <= t < rest.len() && rest[t] == inner[i];
                    assert(sorted[t] == inner[i]);
                    assert(sorted[t].weight >= sorted[sorted.len() - 1].weight);
                }
            }
        }
    }
}

/// A ranking holds the swatches that were ranked, each as often as it was
/// given, by descending weight: the most dominant colour comes first.
pub proof fn lemma_ranked(swatches: Seq<Swatch>)
    ensures
        is_descending(ranked(swatches)),
        ranked(swatches).to_multiset() == swatches.to_multiset(),
        ranked(swatches).len() == swatches.len(),
    decreases swatches.len(),
{
    broadcast use vstd::seq_lib::to_multiset_build;

    if swatches.len() > 0 {
        let rest = swatches.drop_last();
        lemma_ranked(rest);
        lemma_insert_ranked_props(ranked(rest), swatches.last());
        assert(rest.push(swatches.last()) =~= swatches);
    } else {
        assert(swatches =~= ranked(swatches));
    }
}

/// How many colours a palette has at most.
pub const CLUSTERS: u8 = 8;

/// After how many rounds a clustering run stops at the latest.
pub const MAX_ROUNDS: usize = 20;

/// How little the centres may move for a run to stop early.
pub const CONVERGE: u16 = 10;

/// How many runs are made, with the seeds 0, 1, 2 and so on.
pub const RUNS: u64 = 3;

/// The side of the square that a picture is scaled into before clustering.
pub const SAMPLE_SIDE: u32 = 150;

/// The better of two runs: the later one only where its score is strictly
/// lower.
pub open spec fn better_view(first: RunView, run: RunView) -> RunView {
    if run.score < first.score {
        run
    } else {
        first
    }
}

/// The run to keep of the best run so far and a new run: the new one where
/// it is the first, or where its score is strictly lower.
pub open spec fn better_of(best: Option<ClusterRun>, run: ClusterRun) -> ClusterRun {
    match best {
        Some(first) => if run.score < first.score {
            run
        } else {
            first
        },
        None => run,
    }
}

/// The better of the best run so far and a new run: the new one where it is
/// the first, or where its score is strictly lower. Of two runs with the
/// same score the earlier one stays.
pub fn better_run(best: Option<ClusterRun>, run: ClusterRun) -> (kept: Option<ClusterRun>)
    ensures
        kept == Some(better_of(best, run)),
{
    match best {
        Some(first) => {
            if run.score < first.score {
                Some(run)
            } else {
                Some(first)
            }
        },
        None => Some(run),
    }
}

/// The best of the first `runs` runs, which cluster the colours around at
/// most eight centres, for twenty rounds at most and until the centres move
/// by ten at most, with the seeds 0, 1, 2 and so on: the run with the lowest
/// score, the earliest among equals.
pub open spec fn best_of_runs(pixels: Seq<LabBits>, runs: nat) -> RunView
    decreases runs,
{
    if runs <= 1 {
        clustered(CLUSTERS, MAX_ROUNDS, CONVERGE, pixels, 0)
    } else {
        better_view(
            best_of_runs(pixels, (runs - 1) as nat),
            clustered(CLUSTERS, MAX_ROUNDS, CONVERGE, pixels, (runs - 1) as u64),
        )
    }
}

/// Whether a run clusters `pixels` colours: it has between one and eight
/// centres, and assigns each of the colours to one of them.
pub open spec fn is_run_over(run: ClusterRun, pixels: nat) -> bool {
    &&& 1 <= run.centroids@.len() <= CLUSTERS
    &&& run.indices@.len() == pixels
    &&& run.wf()
}

/// Clusters the colours once for each of the three seeds and keeps the run
/// with the lowest score, the earliest among equals. There is always such
/// a run.
pub fn best_run(pixels: &Vec<palette::Lab>) -> (best: Option<ClusterRun>)
    requires
        pixels@.len() > 0,
    ensures
        best is Some,
        best->Some_0@ == best_of_runs(labs_bits(pixels@), RUNS as nat),
        is_run_over(best->Some_0, pixels@.len()),
        are_screen_colors(labs_bits(pixels@)) ==> are_numbers(best->Some_0@.centroids),
{
    let mut best: Option<ClusterRun> = None;
    let mut seed: u64 = 0;
    while seed < RUNS
        invariant
            0 <= seed <= RUNS,
            pixels@.len() > 0,
            seed > 0 ==> best is Some,
            seed == 0 ==> best is None,
            best is Some ==> {
                &&& best->Some_0@ == best_of_runs(labs_bits(pixels@), seed as nat)
                &&& is_run_over(best->Some_0, pixels@.len())
                &&& are_screen_colors(labs_bits(pixels@)) ==> are_numbers(best->Some_0@.centroids)
            },
        decreases RUNS - seed,
    {
        let run = cluster(CLUSTERS, MAX_ROUNDS, CONVERGE, pixels, seed);
        best = better_run(best, run);
        seed = seed + 1;
    }
    best
}

/// Whether a media type is one of a video.
pub open spec fn is_video_type(media_type: Seq<char>) -> bool {
    has_infix(media_type, "video"@)
}

/// Whether a file has colours to extract: it is no video by its media type,
/// and it decodes as a picture with pixels.
pub open spec fn has_colors(file_path: Seq<char>, media: Seq<u8>) -> bool {
    !is_video_type(media_type_text(guessed_media_type(file_path))) && has_pixels(file_path, media)
}

/// The swatches of weighed centres: the screen colour of each centre, with
/// its share as weight.
pub open spec fn swatches_of(weighed: Seq<(LabBits, u32)>) -> Seq<Swatch> {
    weighed.map_values(|w: (LabBits, u32)| Swatch { weight: w.1, color: rgb_of(w.0) })
}

/// The swatches of a picture: its pixels are sampled into a square of 150,
/// converted to the Lab space and clustered; the centres of the best run
/// that own a pixel are weighed and converted back.
pub open spec fn picture_swatches(file_path: Seq<char>, media: Seq<u8>) -> Seq<Swatch> {
    let pixels = sampled_pixels(file_path, media, SAMPLE_SIDE, SAMPLE_SIDE)->Some_0;
    let run = best_of_runs(labs_of(pixels), RUNS as nat);
    swatches_of(weighed_clusters(run.centroids, run.indices))
}

/// The dominant colours of a file: none for a video or a file that does not
/// decode as a picture with pixels, otherwise the hex triplets of the
/// picture's swatches, by descending weight.
pub open spec fn dominant_colors(file_path: Seq<char>, media: Seq<u8>) -> Seq<Seq<char>> {
    if has_colors(file_path, media) {
        palette_text(picture_swatches(file_path, media))
    } else {
        Seq::empty()
    }
}

/// The palette of no swatches: no colours.
fn no_colors() -> (colors: Vec<String>)
    ensures
        colors@.len() == 0,
        texts(colors@) == Seq::<Seq<char>>::empty(),
{
    let colors: Vec<String> = Vec::new();
    assert(texts(colors@) =~= Seq::<Seq<char>>::empty());
    colors
}

/// Extracts the dominant colours of a picture, given the path of its file
/// and the file's content: the palette of the clusters that its colours
/// fall into, the most dominant first. A video has no colours, and neither
/// has a file that does not decode as a picture with pixels; every other
/// file has between one and eight.
pub fn extract_colors(file_path: &str, media: &[u8]) -> (colors: Vec<String>)
    ensures
        texts(colors@) == dominant_colors(file_path@, media@),
        has_colors(file_path@, media@) ==> colors@.len() >= 1,
        !has_colors(file_path@, media@) ==> colors@.len() == 0,
        colors@.len() <= CLUSTERS,
        forall|i: int| 0 <= i < colors@.len() ==> is_hex_color(#[trigger] colors@[i]@),
{
    let media_type = determine_media_type(file_path);
    if contains(media_type.as_str(), "video") {
        return no_colors();
    }
    match analyze_dimensions(file_path, media) {
        Some((width, height)) => {
            if width == 0 || height == 0 {
                return no_colors();
            }
        },
        None => {
            return no_colors();
        },
    }
    let pixels = match sample_pixels(file_path, media, SAMPLE_SIDE, SAMPLE_SIDE) {
        Some(pixels) => pixels,
        None => {
            return no_colors();
        },
    };
    let mut lab_cache = new_cache();
    let mut lab_pixels: Vec<palette::Lab> = Vec::new();
    cached_srgba_to_lab(&pixels, &mut lab_cache, &mut lab_pixels);
    proof {
        assert forall|i: int| 0 <= i < pixels@.len() implies lab_bits(#[trigger] lab_pixels@[i])
            == lab_of(pixels@[i]) by {
            assert(cache_entries(lab_cache).contains_key(pixels@[i]));
        }
        assert(labs_bits(lab_pixels@) =~= labs_of(pixels@));
        assert forall|i: int| 0 <= i < labs_of(pixels@).len() implies (#[trigger] labs_of(
            pixels@,
        )[i]).is_screen_color() by {
            assert(labs_of(pixels@)[i] == lab_of(pixels@[i]));
        }
    }
    let run = match best_run(&lab_pixels) {
        Some(run) => run,
        None => {
            return no_colors();
        },
    };
    let weighed = weigh_clusters(&run.centroids, &run.indices);
    let ghost goal = swatches_of(weighed_view(weighed@));
    let mut swatches: Vec<Swatch> = Vec::new();
    let mut i: usize = 0;
    assert(swatches@ =~= goal.take(0));
    while i < weighed.len()
        invariant
            0 <= i <= weighed.len(),
            goal == swatches_of(weighed_view(weighed@)),
            swatches@ == goal.take(i as int),
        decreases weighed.len() - i,
    {
        let color = lab_to_srgb(&weighed[i].0);
        swatches.push(Swatch { weight: weighed[i].1, color });
        assert(swatches@ =~= goal.take(i as int + 1));
        i = i + 1;
    }
    assert(goal.take(weighed.len() as int) =~= goal);
    let colors = palette_of(&swatches);
    proof {
        lemma_ranked(swatches@);
        assert(swatches@ == picture_swatches(file_path@, media@));
        assert(texts(colors@).len() == colors@.len());
        assert forall|i: int| 0 <= i < colors@.len() implies is_hex_color(#[trigger] colors@[i]@) by {
            assert(texts(colors@)[i] == colors@[i]@);
            assert(colors@[i]@ == hex_color_text(ranked(swatches@)[i].color));
        }
    }
    colors
}

/// The dominant colours of a file that has colours are the hex triplets of
/// its swatches, each swatch once, the heaviest first.
pub proof fn lemma_dominant_colors(file_path: Seq<char>, media: Seq<u8>)
    requires
        has_colors(file_path, media),
    ensures
        dominant_colors(file_path, media) == ranked(picture_swatches(file_path, media)).map_values(
            |s: Swatch| hex_color_text(s.color),
        ),
        is_descending(ranked(picture_swatches(file_path, media))),
        ranked(picture_swatches(file_path, media)).to_multiset() == picture_swatches(
            file_path,
            media,
        ).to_multiset(),
        dominant_colors(file_path, media).len() == picture_swatches(file_path, media).len(),
{
    lemma_ranked(picture_swatches(file_path, media));
}

/// The marker that starts the file name of a low-resolution derivative.
pub open spec fn low_res_name_text(file_name: Seq<char>) -> Seq<char> {
    "lower_"@ + file_name
}

/// The file name of the low-resolution derivative of an image.
pub fn low_res_name(file_name: &str) -> (name: String)
    ensures
        name@ == low_res_name_text(file_name@),
{
    let mut name = "lower_".to_owned();
    name.append(file_name);
    name
}

/// The bytes of the derivative of a file's picture: the picture scaled,
/// keeping its proportions, to fit `width` by `height`, and written in the
/// format of the file name; nothing where that format cannot be written.
pub uninterp spec fn rendered_derivative(file_name: Seq<char>, media: Seq<u8>, width: u32, height: u32) -> Option<Seq<u8>>;

/// The bytes of an optional byte string.
pub open spec fn opt_bytes(bytes: Option<Vec<u8>>) -> Option<Seq<u8>> {
    match bytes {
        Some(b) => Some(b@),
        None => None,
    }
}

/// Decodes a picture, scales it to fit the bounds and encodes it again in
/// the format of its file name.
///
/// Trusted: the picture is decoded as in `analyze_dimensions`, scaled by
/// `DynamicImage::resize` with the Lanczos filter, turned into RGBA and
/// written by `DynamicImage::write_to` in the format that the file name's
/// extension names. A format that cannot be written gives nothing. The
/// result depends on the arguments alone.
#[verifier::external_body]
fn render_derivative(file_name: &str, media: &[u8], width: u32, height: u32) -> (encoded: Option<
    Vec<u8>,
>)
    requires
        has_pixels(file_name@, media@),
    ensures
        opt_bytes(encoded) == rendered_derivative(file_name@, media@, width, height),
{
    let format = image::ImageFormat::from_path(file_name).ok()?;
    let picture = image::load_from_memory_with_format(media, format).ok()?;
    let filter = image::imageops::FilterType::Lanczos3;
    let small = image::DynamicImage::ImageRgba8(picture.resize(width, height, filter).to_rgba8());
    let mut out = std::io::Cursor::new(Vec::new());
    small.write_to(&mut out, format).ok()?;
    Some(out.into_inner())
}

/// Whether no derivative is made of files of a media type: animations and
/// videos.
pub open spec fn skips_derivative(media_type: Seq<char>) -> bool {
    has_infix(media_type, "gif"@) || has_infix(media_type, "video"@)
}

/// The derivative of a file: none for an animation, a video or a file that
/// does not decode as a picture with pixels, otherwise what rendering the
/// picture into the bounds gives. The bound that is called `height` is
/// handed on as the width to fit, and `width` as the height.
pub open spec fn derivative_of(file_name: Seq<char>, media: Seq<u8>, height: u32, width: u32) -> Option<
    Seq<u8>,
> {
    if skips_derivative(media_type_text(guessed_media_type(file_name))) || !has_pixels(
        file_name,
        media,
    ) {
        None
    } else {
        rendered_derivative(file_name, media, height, width)
    }
}

/// Makes the low-resolution derivative of an image, given the name of its
/// file and the file's content: the bytes to store under `low_res_name`.
/// No derivative is made of an animation or a video, nor of a file that
/// does not decode as a picture with pixels.
pub fn generate_image(file_name: &str, media: &[u8], height: u32, width: u32) -> (derivative:
    Option<Vec<u8>>)
    ensures
        opt_bytes(derivative) == derivative_of(file_name@, media@, height, width),
{
    let media_type = determine_media_type(file_name);
    if contains(media_type.as_str(), "gif") || contains(media_type.as_str(), "video") {
        return None;
    }
    match analyze_dimensions(file_name, media) {
        Some((w, h)) => {
            if w == 0 || h == 0 {
                return None;
            }
        },
        None => {
            return None;
        },
    }
    render_derivative(file_name, media, height, width)
}

} // verus!
