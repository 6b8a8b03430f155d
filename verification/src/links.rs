//! Links in posts: which texts are links, how a link is previewed, and which image of a page
//! stands for it.

use vstd::prelude::*;
use vstd::string::*;

use crate::markup::{
    attribute, decode_html_entities, decoded_entities, extract_attribute_value,
    extract_section_html_fragments, law_attribute_of_lower, scan_tags, sections, tags,
};
use crate::number::{
    all_digits, decimal, law_decimal_digits, law_decimal_round_trip, parse_i32, parse_integer,
};
use crate::text::{
    chars_of, contains, contains_text, in_class, is_alnum, is_before, is_digit, is_digit_char,
    is_white, law_text_order, law_text_order_transitive, law_trim_fixed,
    law_trim_takes_the_class_away, law_words, lemma_run_end, lemma_run_start, lower, lower_char,
    opt_str, opt_view, pieces, run_end, run_start, split_pieces, split_words, starts_with,
    starts_with_text, str_eq, string_of, text_before, to_lower, trim, trim_matches, trim_of,
    trim_text, truncate_chars, views, words, CharClass,
};
use crate::weburl::{
    has_web_scheme, is_web_scheme, join_url, parse_url, path_extension, path_extension_of,
    url_joined, url_parsed, url_result, UrlParts, WebUrl,
};

verus! {

/// How many bytes of a page are read to find its image.
pub const LINK_PREVIEW_MAX_HTML_BYTES: usize = 524_288;

pub const LINK_PREVIEW_TIMEOUT_SECS: u64 = 6;

// ---------------------------------------------------------------------------
// Links in text
// ---------------------------------------------------------------------------
/// Whether a parsed address can be the link of a post.
pub open spec fn linkable(u: UrlParts) -> bool {
    is_web_scheme(u.scheme) && u.host is Some
}

pub fn is_linkable(u: &WebUrl) -> (r: bool)
    ensures
        r == linkable(u@),
{
    has_web_scheme(u) && u.host.is_some()
}

/// Whether a text can be the link of a post: nothing, or a web address with a host.
pub open spec fn supported_link(text: Seq<char>) -> bool {
    trim(text).len() == 0 || (url_parsed(trim(text)) matches Ok(u) && linkable(u))
}

pub fn is_supported_post_link(link_url: &str) -> (r: bool)
    ensures
        r == supported_link(link_url@),
{
    let trimmed: String = trim_text(link_url);
    if trimmed.as_str().is_empty() {
        return true;
    }
    match parse_url(trimmed.as_str()) {
        Ok(u) => is_linkable(&u),
        Err(_) => false,
    }
}

/// A word as a link: without the punctuation around it.
pub open spec fn link_candidate(word: Seq<char>) -> Seq<char> {
    trim_of(word, CharClass::LinkPunctuation)
}

/// The first of the words from `i` on that is a link.
pub open spec fn first_link(w: Seq<Seq<char>>, i: int) -> Option<Seq<char>>
    decreases w.len() - i,
{
    if i < 0 || i >= w.len() {
        None
    } else if link_candidate(w[i]).len() > 0 && supported_link(link_candidate(w[i])) {
        Some(link_candidate(w[i]))
    } else {
        first_link(w, i + 1)
    }
}

/// The first link in a text.
pub fn extract_first_link_from_text(text: &str) -> (r: Option<String>)
    ensures
        opt_view(r) == first_link(words(text@), 0),
{
    let parts: Vec<String> = split_words(text);
    let mut i: usize = 0;
    while i < parts.len()
        invariant
            i <= parts.len(),
            views(parts@) == words(text@),
            first_link(words(text@), i as int) == first_link(words(text@), 0),
        decreases parts.len() - i,
    {
        assert(views(parts@)[i as int] == parts@[i as int]@);
        let candidate: String = trim_matches(parts[i].as_str(), CharClass::LinkPunctuation);
        if !candidate.as_str().is_empty() && is_supported_post_link(candidate.as_str()) {
            return Some(candidate);
        }
        i = i + 1;
    }
    None
}

/// A link found in a text is a link: extracting it from itself as a word gives it back.
pub proof fn law_first_link_is_supported(w: Seq<Seq<char>>, i: int)
    requires
        0 <= i,
    ensures
        first_link(w, i) matches Some(link) ==> link.len() > 0 && supported_link(link)
            && exists|j: int| i <= j < w.len() && link == link_candidate(#[trigger] w[j]),
        first_link(w, i) is None ==> forall|j: int|
            i <= j < w.len() ==> link_candidate(#[trigger] w[j]).len() == 0 || !supported_link(
                link_candidate(w[j]),
            ),
    decreases w.len() - i,
{
    if i < w.len() {
        law_first_link_is_supported(w, i + 1);
    }
}

// ---------------------------------------------------------------------------
// Image addresses
// ---------------------------------------------------------------------------
/// Whether a file extension is one of an image that a page can show.
pub open spec fn image_extension(ext: Seq<char>) -> bool {
    ext == "jpg"@ || ext == "jpeg"@ || ext == "png"@ || ext == "gif"@ || ext == "webp"@ || ext
        == "avif"@ || ext == "bmp"@
}

pub fn is_image_extension(ext: &str) -> (r: bool)
    ensures
        r == image_extension(ext@),
{
    str_eq(ext, "jpg") || str_eq(ext, "jpeg") || str_eq(ext, "png") || str_eq(ext, "gif")
        || str_eq(ext, "webp") || str_eq(ext, "avif") || str_eq(ext, "bmp")
}

pub fn link_url_has_image_extension(parsed: &WebUrl) -> (r: bool)
    ensures
        r == image_extension(path_extension(parsed@.path)),
{
    is_image_extension(path_extension_of(parsed).as_str())
}

/// The reference to an image that a page holds, decoded; nothing for data and script references.
pub open spec fn image_reference(candidate: Seq<char>) -> Option<Seq<char>> {
    let decoded = decoded_entities(trim(candidate));
    if decoded.len() == 0 || starts_with_text(lower(decoded), "data:"@) || starts_with_text(
        lower(decoded),
        "javascript:"@,
    ) {
        None
    } else {
        Some(decoded)
    }
}

pub fn link_image_reference(candidate: &str) -> (r: Option<String>)
    ensures
        opt_view(r) == image_reference(candidate@),
{
    let trimmed: String = trim_text(candidate);
    let decoded: String = decode_html_entities(trimmed.as_str());
    if decoded.as_str().is_empty() {
        return None;
    }
    let lowered: String = to_lower(decoded.as_str());
    if starts_with(lowered.as_str(), "data:") || starts_with(lowered.as_str(), "javascript:") {
        return None;
    }
    Some(decoded)
}

/// The absolute form of a reference: with the scheme of the page where only that is missing, else
/// as it parses on its own, else resolved against the page.
pub open spec fn absolute_reference(
    scheme: Seq<char>,
    reference: Seq<char>,
    parsed: Result<UrlParts, Seq<char>>,
    joined: Result<UrlParts, Seq<char>>,
) -> Option<Seq<char>> {
    if starts_with_text(reference, "//"@) {
        Some(scheme + ":"@ + reference)
    } else {
        match parsed {
            Ok(u) => Some(u.href),
            Err(_) => match joined {
                Ok(u) => Some(u.href),
                Err(_) => None,
            },
        }
    }
}

pub fn absolute_image_reference(
    scheme: &str,
    reference: &str,
    parsed: &Result<WebUrl, String>,
    joined: &Result<WebUrl, String>,
) -> (r: Option<String>)
    ensures
        opt_view(r) == absolute_reference(
            scheme@,
            reference@,
            url_result(*parsed),
            url_result(*joined),
        ),
{
    if starts_with(reference, "//") {
        let mut out: String = scheme.to_owned();
        out.append(":");
        out.append(reference);
        return Some(out);
    }
    match parsed {
        Ok(u) => Some(u.href.clone()),
        Err(_) => match joined {
            Ok(u) => Some(u.href.clone()),
            Err(_) => None,
        },
    }
}

/// The address of an image, if it is one of the web.
pub open spec fn accepted_image(parsed: Result<UrlParts, Seq<char>>) -> Option<Seq<char>> {
    match parsed {
        Ok(u) => if is_web_scheme(u.scheme) {
            Some(u.href)
        } else {
            None
        },
        Err(_) => None,
    }
}

pub fn accept_image_url(parsed: &Result<WebUrl, String>) -> (r: Option<String>)
    ensures
        opt_view(r) == accepted_image(url_result(*parsed)),
{
    match parsed {
        Ok(u) => if has_web_scheme(u) {
            Some(u.href.clone())
        } else {
            None
        },
        Err(_) => None,
    }
}

/// The absolute web address of an image that a page refers to.
pub open spec fn normalized_image(base: UrlParts, candidate: Seq<char>) -> Option<Seq<char>> {
    match image_reference(candidate) {
        Some(reference) => match absolute_reference(
            base.scheme,
            reference,
            url_parsed(reference),
            url_joined(base.href, reference),
        ) {
            Some(absolute) => accepted_image(url_parsed(absolute)),
            None => None,
        },
        None => None,
    }
}

pub fn normalize_link_image_url(base_url: &WebUrl, candidate: &str) -> (r: Option<String>)
    ensures
        opt_view(r) == normalized_image(base_url@, candidate@),
{
    match link_image_reference(candidate) {
        Some(reference) => {
            let parsed: Result<WebUrl, String> = parse_url(reference.as_str());
            let joined: Result<WebUrl, String> = join_url(
                base_url.href.as_str(),
                reference.as_str(),
            );
            match absolute_image_reference(
                base_url.scheme.as_str(),
                reference.as_str(),
                &parsed,
                &joined,
            ) {
                Some(absolute) => {
                    let accepted: Result<WebUrl, String> = parse_url(absolute.as_str());
                    accept_image_url(&accepted)
                },
                None => None,
            }
        },
        None => None,
    }
}

// ---------------------------------------------------------------------------
// Sets of sources
// ---------------------------------------------------------------------------
/// What the descriptor of an entry of a source set says.
pub enum SourceDescriptor {
    /// The text before the `w` of a width.
    Width(String),
    /// The text before the `x` of a scale.
    Scale(String),
    /// No width and no scale.
    Plain,
}

/// Reads the descriptor of an entry of a source set.
pub fn source_descriptor(descriptor: &str) -> (r: SourceDescriptor)
    ensures
        match r {
            SourceDescriptor::Width(t) => descriptor@ == t@.push('w'),
            SourceDescriptor::Scale(t) => descriptor@ == t@.push('x'),
            SourceDescriptor::Plain => descriptor@.len() == 0 || (descriptor@.last() != 'w'
                && descriptor@.last() != 'x'),
        },
{
    let v: Vec<char> = chars_of(descriptor);
    if v.len() == 0 {
        return SourceDescriptor::Plain;
    }
    let last: char = v[v.len() - 1];
    let head: String = string_of(&v, 0, v.len() - 1);
    assert(head@.push(last) =~= descriptor@);
    if last == 'w' {
        SourceDescriptor::Width(head)
    } else if last == 'x' {
        SourceDescriptor::Scale(head)
    } else {
        SourceDescriptor::Plain
    }
}

/// The rank of a descriptor among those of a page; none where it cannot be ranked.
pub struct SourceWeight {
    pub descriptor: String,
    pub weight: Option<i64>,
}

/// The rank that the first entry of the table with the descriptor gives it.
pub open spec fn weight_of(table: Seq<SourceWeight>, descriptor: Seq<char>, i: int) -> Option<i64>
    decreases table.len() - i,
{
    if i < 0 || i >= table.len() {
        None
    } else if table[i].descriptor@ == descriptor {
        table[i].weight
    } else {
        weight_of(table, descriptor, i + 1)
    }
}

fn find_weight(table: &Vec<SourceWeight>, descriptor: &str) -> (r: Option<i64>)
    ensures
        r == weight_of(table@, descriptor@, 0),
{
    let mut i: usize = 0;
    while i < table.len()
        invariant
            i <= table.len(),
            weight_of(table@, descriptor@, i as int) == weight_of(table@, descriptor@, 0),
        decreases table.len() - i,
    {
        if str_eq(table[i].descriptor.as_str(), descriptor) {
            return table[i].weight;
        }
        i = i + 1;
    }
    None
}

/// The address and the descriptor of an entry of a source set.
pub open spec fn source_entry(entry: Seq<char>) -> Option<(Seq<char>, Seq<char>)> {
    let parts = words(trim(entry));
    if parts.len() == 0 {
        None
    } else if parts.len() == 1 {
        Some((parts[0], Seq::empty()))
    } else {
        Some((parts[0], parts[1]))
    }
}

fn read_source_entry(entry: &str) -> (r: Option<(String, String)>)
    ensures
        r is Some == source_entry(entry@) is Some,
        r matches Some(p) ==> source_entry(entry@) == Some((p.0@, p.1@)),
{
    let trimmed: String = trim_text(entry);
    let parts: Vec<String> = split_words(trimmed.as_str());
    proof {
        assert(views(parts@).len() == parts@.len());
    }
    if parts.len() == 0 {
        None
    } else {
        assert(views(parts@)[0] == parts@[0]@);
        if parts.len() == 1 {
            Some((parts[0].clone(), String::new()))
        } else {
            assert(views(parts@)[1] == parts@[1]@);
            Some((parts[0].clone(), parts[1].clone()))
        }
    }
}

/// The best of the first `n` entries, with its rank: of those of rank zero or more the highest,
/// and of equal ones the last.
pub open spec fn best_source(
    entries: Seq<Seq<char>>,
    table: Seq<SourceWeight>,
    n: int,
) -> Option<(Seq<char>, i64)>
    decreases n,
{
    if n <= 0 || n > entries.len() {
        None
    } else {
        let before = best_source(entries, table, n - 1);
        match source_entry(entries[n - 1]) {
            Some((url, descriptor)) => match weight_of(table, descriptor, 0) {
                Some(w) => if w >= (match before {
                    Some((_, b)) => b,
                    None => 0,
                }) {
                    Some((url, w))
                } else {
                    before
                },
                None => before,
            },
            None => before,
        }
    }
}

/// The address that a source set offers.
pub open spec fn chosen_source(srcset: Seq<char>, table: Seq<SourceWeight>) -> Option<Seq<char>> {
    let entries = pieces(srcset, ',');
    match best_source(entries, table, entries.len() as int) {
        Some((url, _)) => Some(url),
        None => None,
    }
}

/// Chooses the entry of a source set with the highest rank.
pub fn choose_best_srcset_candidate(srcset: &str, table: &Vec<SourceWeight>) -> (r: Option<String>)
    ensures
        opt_view(r) == chosen_source(srcset@, table@),
{
    let entries: Vec<String> = split_pieces(srcset, ',');
    let mut best: Option<(String, i64)> = None;
    let mut i: usize = 0;
    while i < entries.len()
        invariant
            i <= entries.len(),
            views(entries@) == pieces(srcset@, ','),
            best is Some == best_source(pieces(srcset@, ','), table@, i as int) is Some,
            best matches Some(b) ==> best_source(pieces(srcset@, ','), table@, i as int) == Some(
                (b.0@, b.1),
            ),
        decreases entries.len() - i,
    {
        assert(views(entries@)[i as int] == entries@[i as int]@);
        if let Some(entry) = read_source_entry(entries[i].as_str()) {
            if let Some(w) = find_weight(table, entry.1.as_str()) {
                let floor: i64 = match &best {
                    Some(b) => b.1,
                    None => 0,
                };
                if w >= floor {
                    best = Some((entry.0, w));
                }
            }
        }
        i = i + 1;
    }
    match best {
        Some(b) => Some(b.0),
        None => None,
    }
}

/// The descriptors of the entries of a source set from `i` on.
pub open spec fn descriptors_from(entries: Seq<Seq<char>>, i: int) -> Seq<Seq<char>>
    decreases entries.len() - i,
{
    if i < 0 || i >= entries.len() {
        Seq::empty()
    } else {
        match source_entry(entries[i]) {
            Some((_, d)) => seq![d] + descriptors_from(entries, i + 1),
            None => descriptors_from(entries, i + 1),
        }
    }
}

/// Appends the descriptors of a source set.
fn push_descriptors(out: &mut Vec<String>, srcset: &str)
    ensures
        views(final(out)@) == views(old(out)@) + descriptors_from(pieces(srcset@, ','), 0),
{
    let ghost start = views(out@);
    let entries: Vec<String> = split_pieces(srcset, ',');
    let mut i: usize = 0;
    assert(views(out@) =~= start);
    while i < entries.len()
        invariant
            i <= entries.len(),
            views(entries@) == pieces(srcset@, ','),
            views(out@) + descriptors_from(pieces(srcset@, ','), i as int) == start
                + descriptors_from(pieces(srcset@, ','), 0),
        decreases entries.len() - i,
    {
        assert(views(entries@)[i as int] == entries@[i as int]@);
        let ghost before = views(out@);
        if let Some(entry) = read_source_entry(entries[i].as_str()) {
            let ghost d = entry.1@;
            out.push(entry.1);
            proof {
                let rest = descriptors_from(pieces(srcset@, ','), i + 1);
                assert(views(out@) =~= before.push(d));
                assert(before + (seq![d] + rest) =~= before.push(d) + rest);
            }
        }
        i = i + 1;
    }
    assert(views(out@) + Seq::<Seq<char>>::empty() =~= views(out@));
}

// ---------------------------------------------------------------------------
// Image tags
// ---------------------------------------------------------------------------
/// The trimmed value of an attribute, if it is not empty.
pub open spec fn filled_attribute(tag: Seq<char>, attr: Seq<char>) -> Option<Seq<char>> {
    match attribute(tag, attr) {
        Some(v) => if trim(v).len() > 0 {
            Some(trim(v))
        } else {
            None
        },
        None => None,
    }
}

fn filled_attribute_of(tag: &str, attr: &str) -> (r: Option<String>)
    ensures
        opt_view(r) == filled_attribute(tag@, attr@),
{
    match extract_attribute_value(tag, attr) {
        Some(v) => {
            let t: String = trim_text(v.as_str());
            if t.as_str().is_empty() {
                None
            } else {
                Some(t)
            }
        },
        None => None,
    }
}

/// What a source set attribute of a tag offers.
pub open spec fn set_source(tag: Seq<char>, attr: Seq<char>, table: Seq<SourceWeight>) -> Option<
    Seq<char>,
> {
    match filled_attribute(tag, attr) {
        Some(v) => chosen_source(v, table),
        None => None,
    }
}

/// The first that is there.
pub open spec fn or_next(a: Option<Seq<char>>, b: Option<Seq<char>>) -> Option<Seq<char>> {
    match a {
        Some(_) => a,
        None => b,
    }
}

/// The source of an image tag: what its lazy-loading attributes, its source sets and its plain
/// source offer, in this order.
pub open spec fn image_source(tag: Seq<char>, table: Seq<SourceWeight>) -> Option<Seq<char>> {
    or_next(
        filled_attribute(tag, "data-src"@),
        or_next(
            filled_attribute(tag, "data-lazy-src"@),
            or_next(
                filled_attribute(tag, "data-original"@),
                or_next(
                    set_source(tag, "srcset"@, table),
                    or_next(set_source(tag, "data-srcset"@, table), filled_attribute(tag, "src"@)),
                ),
            ),
        ),
    )
}

pub fn extract_img_source_candidate(tag: &str, table: &Vec<SourceWeight>) -> (r: Option<String>)
    ensures
        opt_view(r) == image_source(tag@, table@),
{
    if let Some(v) = filled_attribute_of(tag, "data-src") {
        return Some(v);
    }
    if let Some(v) = filled_attribute_of(tag, "data-lazy-src") {
        return Some(v);
    }
    if let Some(v) = filled_attribute_of(tag, "data-original") {
        return Some(v);
    }
    if let Some(v) = filled_attribute_of(tag, "srcset") {
        if let Some(best) = choose_best_srcset_candidate(v.as_str(), table) {
            return Some(best);
        }
    }
    if let Some(v) = filled_attribute_of(tag, "data-srcset") {
        if let Some(best) = choose_best_srcset_candidate(v.as_str(), table) {
            return Some(best);
        }
    }
    filled_attribute_of(tag, "src")
}

// ---------------------------------------------------------------------------
// Scores
// ---------------------------------------------------------------------------
/// Whether one of the markers stands in the text.
pub open spec fn has_marker(haystack: Seq<char>, markers: Seq<&str>) -> bool {
    exists|i: int| 0 <= i < markers.len() && contains_text(haystack, (#[trigger] markers[i])@)
}

pub fn has_any_marker(haystack: &str, markers: &[&str]) -> (r: bool)
    ensures
        r == has_marker(haystack@, markers@),
{
    let mut i: usize = 0;
    while i < markers.len()
        invariant
            i <= markers.len(),
            forall|j: int| 0 <= j < i ==> !contains_text(haystack@, (#[trigger] markers@[j])@),
        decreases markers.len() - i,
    {
        if contains(haystack, markers[i]) {
            assert(contains_text(haystack@, markers@[i as int]@));
            return true;
        }
        i = i + 1;
    }
    false
}

/// The digits of a text.
pub open spec fn only_digits(s: Seq<char>) -> Seq<char>
    decreases s.len(),
{
    if s.len() == 0 {
        Seq::empty()
    } else if is_digit(s.last()) {
        only_digits(s.drop_last()).push(s.last())
    } else {
        only_digits(s.drop_last())
    }
}

/// The positive number that the digits of a text form.
pub open spec fn dimension(value: Seq<char>) -> Option<int> {
    match parse_integer(only_digits(value), i32::MIN as int, i32::MAX as int) {
        Some(n) => if n > 0 {
            Some(n)
        } else {
            None
        },
        None => None,
    }
}

pub open spec fn opt_int(o: Option<i32>) -> Option<int> {
    match o {
        Some(n) => Some(n as int),
        None => None,
    }
}

pub fn parse_dimension(value: &str) -> (r: Option<i32>)
    ensures
        opt_int(r) == dimension(value@),
        r matches Some(n) ==> n > 0,
{
    let v: Vec<char> = chars_of(value);
    let mut digits: String = String::new();
    let mut i: usize = 0;
    assert(v@.take(0) =~= Seq::<char>::empty());
    while i < v.len()
        invariant
            i <= v.len(),
            digits@ == only_digits(v@.take(i as int)),
        decreases v.len() - i,
    {
        assert(v@.take(i + 1).drop_last() =~= v@.take(i as int));
        if is_digit_char(v[i]) {
            digits.push(v[i]);
        }
        i = i + 1;
    }
    assert(v@.take(v.len() as int) =~= value@);
    match parse_i32(digits.as_str()) {
        Some(n) => if n > 0 {
            Some(n)
        } else {
            None
        },
        None => None,
    }
}

/// The size that an attribute of a tag gives.
pub open spec fn tag_dimension(tag: Seq<char>, attr: Seq<char>) -> Option<int> {
    match attribute(tag, attr) {
        Some(v) => dimension(v),
        None => None,
    }
}

fn tag_dimension_of(tag: &str, attr: &str) -> (r: Option<i32>)
    ensures
        opt_int(r) == tag_dimension(tag@, attr@),
        r matches Some(n) ==> n > 0,
{
    match extract_attribute_value(tag, attr) {
        Some(v) => parse_dimension(v.as_str()),
        None => None,
    }
}

/// Words that mark a picture of the site's furniture.
pub open spec fn furniture_markers() -> Seq<&'static str> {
    seq![
        "logo",
        "favicon",
        "icon",
        "avatar",
        "brandmark",
        "sprite",
        "header-logo",
        "nav-logo",
        "navbar",
        "site-header",
        "apple-touch-icon",
        "mask-icon",
        "placeholder",
        "spacer",
        "pixel",
    ]
}

/// Words that mark a picture of the page's content.
pub open spec fn content_markers() -> Seq<&'static str> {
    seq![
        "hero",
        "featured",
        "feature-image",
        "cover",
        "article",
        "blog",
        "post",
        "story",
        "content-image",
    ]
}

/// What the extension of an address adds to a score.
pub open spec fn extension_score(extension: Option<Seq<char>>) -> int {
    match extension {
        Some(ext) => if image_extension(ext) {
            10
        } else if ext == "svg"@ {
            -55
        } else {
            0
        },
        None => 0,
    }
}

/// What the size that a tag gives adds to a score.
pub open spec fn size_score(width: Option<int>, height: Option<int>) -> int {
    match (width, height) {
        (Some(w), Some(h)) => (if w < 120 || h < 120 || w * h <= 35_000 {
            -35int
        } else {
            0
        }) + (if w >= 400 && h >= 220 {
            12int
        } else {
            0
        }),
        (Some(w), None) => if w < 120 {
            -25
        } else {
            0
        },
        (None, Some(h)) => if h < 120 {
            -25
        } else {
            0
        },
        (None, None) => 0,
    }
}

/// The score of an image: a sum over what its tag and its address show.
pub open spec fn image_score(
    tag: Seq<char>,
    image_url: Seq<char>,
    extension: Option<Seq<char>>,
    bias: int,
) -> int {
    let combined = lower(tag) + " "@ + lower(image_url);
    bias + extension_score(extension) + (if has_marker(combined, furniture_markers()) {
        -70int
    } else {
        0
    }) + (if has_marker(combined, content_markers()) {
        18int
    } else {
        0
    }) + size_score(tag_dimension(tag, "width"@), tag_dimension(tag, "height"@)) + (if contains_text(
        lower(tag),
        "display:none"@,
    ) || contains_text(lower(tag), "visibility:hidden"@) {
        -25int
    } else {
        0
    })
}

/// Scores an image by its tag, its address and the extension of the parsed address.
proof fn lemma_digits_lower(s: Seq<char>)
    ensures
        only_digits(lower(s)) == only_digits(s),
    decreases s.len(),
{
    if s.len() > 0 {
        lemma_digits_lower(s.drop_last());
        assert(lower(s).drop_last() =~= lower(s.drop_last()));
        assert(lower(s).last() == lower_char(s.last()));
    }
}

proof fn lemma_dimension_lower(tag: Seq<char>, attr: Seq<char>)
    ensures
        tag_dimension(lower(tag), attr) == tag_dimension(tag, attr),
{
    law_attribute_of_lower(tag, attr);
    if let Some(v) = attribute(tag, attr) {
        lemma_digits_lower(v);
    }
}

/// The score of a picture depends on the bias by addition.
pub proof fn law_score_adds_bias(
    tag: Seq<char>,
    image_url: Seq<char>,
    extension: Option<Seq<char>>,
    bias: int,
)
    ensures
        image_score(tag, image_url, extension, bias) == bias + image_score(
            tag,
            image_url,
            extension,
            0,
        ),
{
}

/// The score of a picture is the same for two tags that differ in the case of their letters.
pub proof fn law_score_ignores_case(
    a: Seq<char>,
    b: Seq<char>,
    image_url: Seq<char>,
    extension: Option<Seq<char>>,
    bias: int,
)
    requires
        lower(a) == lower(b),
    ensures
        image_score(a, image_url, extension, bias) == image_score(b, image_url, extension, bias),
{
    lemma_dimension_lower(a, "width"@);
    lemma_dimension_lower(a, "height"@);
    lemma_dimension_lower(b, "width"@);
    lemma_dimension_lower(b, "height"@);
}

pub fn score_image(
    tag: &str,
    image_url: &str,
    extension: Option<&str>,
    source_bias: i32,
) -> (r: i32)
    requires
        i32::MIN + 185 <= source_bias <= i32::MAX - 40,
    ensures
        r == image_score(tag@, image_url@, opt_str(extension), source_bias as int),
{
    let lower_tag: String = to_lower(tag);
    let lower_url: String = to_lower(image_url);
    let mut combined: String = lower_tag.clone();
    combined.append(" ");
    combined.append(lower_url.as_str());
    let mut score: i32 = source_bias;
    match extension {
        Some(ext) => {
            if is_image_extension(ext) {
                score = score + 10;
            } else if str_eq(ext, "svg") {
                score = score - 55;
            }
        },
        None => {},
    }
    let furniture: [&str; 15] = [
        "logo",
        "favicon",
        "icon",
        "avatar",
        "brandmark",
        "sprite",
        "header-logo",
        "nav-logo",
        "navbar",
        "site-header",
        "apple-touch-icon",
        "mask-icon",
        "placeholder",
        "spacer",
        "pixel",
    ];
    assert(furniture@ =~= furniture_markers());
    if has_any_marker(combined.as_str(), furniture.as_slice()) {
        score = score - 70;
    }
    let content: [&str; 9] = [
        "hero",
        "featured",
        "feature-image",
        "cover",
        "article",
        "blog",
        "post",
        "story",
        "content-image",
    ];
    assert(content@ =~= content_markers());
    if has_any_marker(combined.as_str(), content.as_slice()) {
        score = score + 18;
    }
    let width: Option<i32> = tag_dimension_of(tag, "width");
    let height: Option<i32> = tag_dimension_of(tag, "height");
    match (width, height) {
        (Some(w), Some(h)) => {
            assert(0 <= w * h <= 0x3fff_ffff_ffff_ffff) by (nonlinear_arith)
                requires
                    0 < w <= 0x7fff_ffff,
                    0 < h <= 0x7fff_ffff,
            ;
            let area: i64 = (w as i64) * (h as i64);
            if w < 120 || h < 120 || area <= 35_000 {
                score = score - 35;
            }
            if w >= 400 && h >= 220 {
                score = score + 12;
            }
        },
        (Some(w), None) => {
            if w < 120 {
                score = score - 25;
            }
        },
        (None, Some(h)) => {
            if h < 120 {
                score = score - 25;
            }
        },
        (None, None) => {},
    }
    if contains(lower_tag.as_str(), "display:none") || contains(
        lower_tag.as_str(),
        "visibility:hidden",
    ) {
        score = score - 25;
    }
    score
}

/// The extension of an address that parses.
pub open spec fn parsed_extension(image_url: Seq<char>) -> Option<Seq<char>> {
    match url_parsed(image_url) {
        Ok(u) => Some(path_extension(u.path)),
        Err(_) => None,
    }
}

pub fn score_image_candidate(tag: &str, image_url: &str, source_bias: i32) -> (r: i32)
    requires
        i32::MIN + 185 <= source_bias <= i32::MAX - 40,
    ensures
        r == image_score(tag@, image_url@, parsed_extension(image_url@), source_bias as int),
{
    match parse_url(image_url) {
        Ok(u) => {
            let ext: String = path_extension_of(&u);
            score_image(tag, image_url, Some(ext.as_str()), source_bias)
        },
        Err(_) => score_image(tag, image_url, None, source_bias),
    }
}

// ---------------------------------------------------------------------------
// Candidates
// ---------------------------------------------------------------------------
/// An image of a page with its score.
pub struct LinkImageCandidate {
    pub image_url: String,
    pub score: i32,
}

pub open spec fn candidates_view(v: Seq<LinkImageCandidate>) -> Seq<(Seq<char>, int)> {
    Seq::new(v.len(), |i: int| (v[i].image_url@, v[i].score as int))
}

/// Whether a meta property names the image of a page.
pub open spec fn image_property(key: Seq<char>) -> bool {
    key == "og:image"@ || key == "og:image:url"@ || key == "og:image:secure_url"@ || key
        == "twitter:image"@ || key == "twitter:image:src"@ || key == "twitter:image:url"@
}

pub fn is_image_property(key: &str) -> (r: bool)
    ensures
        r == image_property(key@),
{
    str_eq(key, "og:image") || str_eq(key, "og:image:url") || str_eq(key, "og:image:secure_url")
        || str_eq(key, "twitter:image") || str_eq(key, "twitter:image:src") || str_eq(
        key,
        "twitter:image:url",
    )
}

/// The property that a meta tag sets, in lower case.
pub open spec fn meta_key(tag: Seq<char>) -> Seq<char> {
    match or_next(attribute(tag, "property"@), attribute(tag, "name"@)) {
        Some(v) => lower(trim(v)),
        None => Seq::empty(),
    }
}

fn meta_key_of(tag: &str) -> (r: String)
    ensures
        r@ == meta_key(tag@),
{
    let found: Option<String> = match extract_attribute_value(tag, "property") {
        Some(v) => Some(v),
        None => extract_attribute_value(tag, "name"),
    };
    match found {
        Some(v) => {
            let t: String = trim_text(v.as_str());
            to_lower(t.as_str())
        },
        None => String::new(),
    }
}

/// The bias of an image that a meta tag names.
pub const META_BIAS: i32 = 72;

/// The bias of an image in the main part of a page.
pub const SECTION_BIAS: i32 = 48;

/// The bias of an image anywhere in a page.
pub const PAGE_BIAS: i32 = 28;

/// The candidate for an image address found in a tag.
pub open spec fn scored(
    base: UrlParts,
    tag: Seq<char>,
    source: Option<Seq<char>>,
    bias: int,
) -> Option<(Seq<char>, int)> {
    match source {
        Some(s) => match normalized_image(base, s) {
            Some(url) => Some((url, image_score(tag, url, parsed_extension(url), bias))),
            None => None,
        },
        None => None,
    }
}

fn scored_candidate(base_url: &WebUrl, tag: &str, source: Option<&str>, bias: i32) -> (r: Option<
    LinkImageCandidate,
>)
    requires
        i32::MIN + 185 <= bias <= i32::MAX - 40,
    ensures
        r is Some == scored(base_url@, tag@, opt_str(source), bias as int) is Some,
        r matches Some(c) ==> scored(base_url@, tag@, opt_str(source), bias as int) == Some(
            (c.image_url@, c.score as int),
        ),
{
    match source {
        Some(s) => match normalize_link_image_url(base_url, s) {
            Some(image_url) => {
                let score: i32 = score_image_candidate(tag, image_url.as_str(), bias);
                Some(LinkImageCandidate { image_url, score })
            },
            None => None,
        },
        None => None,
    }
}

/// The candidate of a meta tag.
pub open spec fn meta_candidate(base: UrlParts, tag: Seq<char>) -> Option<(Seq<char>, int)> {
    if image_property(meta_key(tag)) {
        scored(base, tag, attribute(tag, "content"@), META_BIAS as int)
    } else {
        None
    }
}

/// The candidates of the first `n` of the meta tags.
pub open spec fn meta_candidates(base: UrlParts, found: Seq<Seq<char>>, n: int) -> Seq<
    (Seq<char>, int),
>
    decreases n,
{
    if n <= 0 || n > found.len() {
        Seq::empty()
    } else {
        match meta_candidate(base, found[n - 1]) {
            Some(c) => meta_candidates(base, found, n - 1).push(c),
            None => meta_candidates(base, found, n - 1),
        }
    }
}

/// The images that the meta tags of a page name.
pub fn extract_meta_image_candidates_from_html(html: &str, base_url: &WebUrl) -> (r: Vec<
    LinkImageCandidate,
>)
    ensures
        candidates_view(r@) == meta_candidates(
            base_url@,
            tags(html@, "<meta"@),
            tags(html@, "<meta"@).len() as int,
        ),
{
    let found: Vec<String> = scan_tags(html, "<meta");
    let mut out: Vec<LinkImageCandidate> = Vec::new();
    let mut i: usize = 0;
    assert(candidates_view(out@) =~= Seq::<(Seq<char>, int)>::empty());
    while i < found.len()
        invariant
            i <= found.len(),
            views(found@) == tags(html@, "<meta"@),
            candidates_view(out@) == meta_candidates(base_url@, tags(html@, "<meta"@), i as int),
        decreases found.len() - i,
    {
        let ghost before = candidates_view(out@);
        assert(views(found@)[i as int] == found@[i as int]@);
        let tag: &str = found[i].as_str();
        if is_image_property(meta_key_of(tag).as_str()) {
            let content: Option<String> = extract_attribute_value(tag, "content");
            let source: Option<&str> = match &content {
                Some(c) => Some(c.as_str()),
                None => None,
            };
            assert(opt_str(source) == attribute(tag@, "content"@));
            if let Some(c) = scored_candidate(base_url, tag, source, META_BIAS) {
                let ghost added = (c.image_url@, c.score as int);
                out.push(c);
                assert(candidates_view(out@) =~= before.push(added));
            }
        }
        i = i + 1;
    }
    out
}

/// The candidates of the first `n` of the image tags, all with one bias.
pub open spec fn image_candidates(
    base: UrlParts,
    found: Seq<Seq<char>>,
    bias: int,
    table: Seq<SourceWeight>,
    n: int,
) -> Seq<(Seq<char>, int)>
    decreases n,
{
    if n <= 0 || n > found.len() {
        Seq::empty()
    } else {
        let before = image_candidates(base, found, bias, table, n - 1);
        match scored(base, found[n - 1], image_source(found[n - 1], table), bias) {
            Some(c) => before.push(c),
            None => before,
        }
    }
}

/// The candidates of the image tags of a text.
pub open spec fn html_candidates(
    base: UrlParts,
    html: Seq<char>,
    bias: int,
    table: Seq<SourceWeight>,
) -> Seq<(Seq<char>, int)> {
    image_candidates(base, tags(html, "<img"@), bias, table, tags(html, "<img"@).len() as int)
}

/// The images in a piece of markup.
pub fn extract_img_candidates_from_html(
    html: &str,
    base_url: &WebUrl,
    source_bias: i32,
    table: &Vec<SourceWeight>,
) -> (r: Vec<LinkImageCandidate>)
    requires
        i32::MIN + 185 <= source_bias <= i32::MAX - 40,
    ensures
        candidates_view(r@) == html_candidates(base_url@, html@, source_bias as int, table@),
{
    let found: Vec<String> = scan_tags(html, "<img");
    let mut out: Vec<LinkImageCandidate> = Vec::new();
    let mut i: usize = 0;
    assert(candidates_view(out@) =~= Seq::<(Seq<char>, int)>::empty());
    while i < found.len()
        invariant
            i <= found.len(),
            i32::MIN + 185 <= source_bias <= i32::MAX - 40,
            views(found@) == tags(html@, "<img"@),
            candidates_view(out@) == image_candidates(
                base_url@,
                tags(html@, "<img"@),
                source_bias as int,
                table@,
                i as int,
            ),
        decreases found.len() - i,
    {
        let ghost before = candidates_view(out@);
        assert(views(found@)[i as int] == found@[i as int]@);
        let tag: &str = found[i].as_str();
        let offered: Option<String> = extract_img_source_candidate(tag, table);
        let source: Option<&str> = match &offered {
            Some(c) => Some(c.as_str()),
            None => None,
        };
        assert(opt_str(source) == image_source(tag@, table@));
        if let Some(c) = scored_candidate(base_url, tag, source, source_bias) {
            let ghost added = (c.image_url@, c.score as int);
            out.push(c);
            assert(candidates_view(out@) =~= before.push(added));
        }
        i = i + 1;
    }
    out
}

/// The candidates of the first `n` of several pieces of markup.
pub open spec fn sections_candidates(
    base: UrlParts,
    parts: Seq<Seq<char>>,
    table: Seq<SourceWeight>,
    n: int,
) -> Seq<(Seq<char>, int)>
    decreases n,
{
    if n <= 0 || n > parts.len() {
        Seq::empty()
    } else {
        sections_candidates(base, parts, table, n - 1) + html_candidates(
            base,
            parts[n - 1],
            SECTION_BIAS as int,
            table,
        )
    }
}

fn append_candidates(out: &mut Vec<LinkImageCandidate>, mut more: Vec<LinkImageCandidate>)
    ensures
        candidates_view(final(out)@) == candidates_view(old(out)@) + candidates_view(more@),
{
    let ghost a = out@;
    let ghost b = more@;
    out.append(&mut more);
    assert(candidates_view(out@) =~= candidates_view(a) + candidates_view(b));
}

fn append_section_candidates(
    out: &mut Vec<LinkImageCandidate>,
    html: &str,
    section_tag: &str,
    base_url: &WebUrl,
    table: &Vec<SourceWeight>,
)
    ensures
        candidates_view(final(out)@) == candidates_view(old(out)@) + sections_candidates(
            base_url@,
            sections(html@, section_tag@),
            table@,
            sections(html@, section_tag@).len() as int,
        ),
{
    let ghost start = candidates_view(out@);
    let parts: Vec<String> = extract_section_html_fragments(html, section_tag);
    let ghost found = sections(html@, section_tag@);
    let mut i: usize = 0;
    assert(start + Seq::<(Seq<char>, int)>::empty() =~= start);
    while i < parts.len()
        invariant
            i <= parts.len(),
            views(parts@) == found,
            candidates_view(out@) == start + sections_candidates(
                base_url@,
                found,
                table@,
                i as int,
            ),
        decreases parts.len() - i,
    {
        assert(views(parts@)[i as int] == parts@[i as int]@);
        let more: Vec<LinkImageCandidate> = extract_img_candidates_from_html(
            parts[i].as_str(),
            base_url,
            SECTION_BIAS,
            table,
        );
        append_candidates(out, more);
        proof {
            let before = sections_candidates(base_url@, found, table@, i as int);
            let added = html_candidates(base_url@, found[i as int], SECTION_BIAS as int, table@);
            assert((start + before) + added =~= start + (before + added));
        }
        i = i + 1;
    }
}

// ---------------------------------------------------------------------------
// The best candidate
// ---------------------------------------------------------------------------
/// Whether a candidate is to be preferred: by its score, and of equal scores by its address.
pub open spec fn preferred(a: (Seq<char>, int), b: (Seq<char>, int)) -> bool {
    a.1 > b.1 || (a.1 == b.1 && text_before(a.0, b.0))
}

/// The most preferred of the first `n` candidates that have an address.
pub open spec fn best_candidate(c: Seq<(Seq<char>, int)>, n: int) -> Option<(Seq<char>, int)>
    decreases n,
{
    if n <= 0 || n > c.len() {
        None
    } else {
        let before = best_candidate(c, n - 1);
        if c[n - 1].0.len() == 0 {
            before
        } else {
            match before {
                Some(b) => if preferred(c[n - 1], b) {
                    Some(c[n - 1])
                } else {
                    before
                },
                None => Some(c[n - 1]),
            }
        }
    }
}

/// The lowest score that an image needs to stand for a page.
pub const MIN_IMAGE_SCORE: i32 = 8;

/// The address of the most preferred candidate, if its score is high enough.
pub open spec fn best_image(c: Seq<(Seq<char>, int)>) -> Option<Seq<char>> {
    match best_candidate(c, c.len() as int) {
        Some(b) => if b.1 < MIN_IMAGE_SCORE {
            None
        } else {
            Some(b.0)
        },
        None => None,
    }
}

pub fn pick_best_link_image(candidates: Vec<LinkImageCandidate>) -> (r: Option<String>)
    ensures
        opt_view(r) == best_image(candidates_view(candidates@)),
{
    let ghost c = candidates_view(candidates@);
    let mut best: Option<usize> = None;
    let mut i: usize = 0;
    while i < candidates.len()
        invariant
            i <= candidates.len(),
            c == candidates_view(candidates@),
            best is Some == best_candidate(c, i as int) is Some,
            best matches Some(b) ==> b < i && best_candidate(c, i as int) == Some(c[b as int]),
        decreases candidates.len() - i,
    {
        assert(c[i as int] == (candidates@[i as int].image_url@, candidates@[i as int].score as int));
        if !candidates[i].image_url.as_str().is_empty() {
            match best {
                Some(b) => {
                    assert(c[b as int] == (
                        candidates@[b as int].image_url@,
                        candidates@[b as int].score as int,
                    ));
                    if candidates[i].score > candidates[b].score || (candidates[i].score
                        == candidates[b].score && is_before(
                        candidates[i].image_url.as_str(),
                        candidates[b].image_url.as_str(),
                    )) {
                        best = Some(i);
                    }
                },
                None => {
                    best = Some(i);
                },
            }
        }
        i = i + 1;
    }
    match best {
        Some(b) => {
            assert(c[b as int] == (
                candidates@[b as int].image_url@,
                candidates@[b as int].score as int,
            ));
            if candidates[b].score < MIN_IMAGE_SCORE {
                None
            } else {
                Some(candidates[b].image_url.clone())
            }
        },
        None => None,
    }
}

/// The best candidate is one of the candidates, and none with an address is preferred to it.
pub proof fn law_best_candidate(c: Seq<(Seq<char>, int)>, n: int)
    requires
        0 <= n <= c.len(),
    ensures
        best_candidate(c, n) matches Some(b) ==> b.0.len() > 0 && (exists|i: int|
            0 <= i < n && #[trigger] c[i] == b) && (forall|i: int|
            0 <= i < n && (#[trigger] c[i]).0.len() > 0 ==> !preferred(c[i], b)),
        best_candidate(c, n) is None ==> forall|i: int|
            0 <= i < n ==> (#[trigger] c[i]).0.len() == 0,
    decreases n,
{
    if n > 0 {
        law_best_candidate(c, n - 1);
        let x = c[n - 1];
        match best_candidate(c, n) {
            Some(b) => {
                law_text_order(b.0, b.0);
                assert forall|i: int| 0 <= i < n && (#[trigger] c[i]).0.len() > 0 implies !preferred(
                    c[i],
                    b,
                ) by {
                    if i < n - 1 && best_candidate(c, n - 1) is Some {
                        let p = best_candidate(c, n - 1)->0;
                        assert(!preferred(c[i], p));
                        if b == x && preferred(x, p) {
                            law_text_order(c[i].0, x.0);
                            law_text_order(c[i].0, p.0);
                            law_text_order(p.0, x.0);
                            if preferred(c[i], x) {
                                if c[i].1 == x.1 && x.1 == p.1 {
                                    law_text_order_transitive(c[i].0, x.0, p.0);
                                }
                            }
                        }
                    }
                }
            },
            None => {},
        }
    }
}

// ---------------------------------------------------------------------------
// The image of a page
// ---------------------------------------------------------------------------
/// All candidates of a page: of its meta tags, of its main and article elements, and of all of it.
pub open spec fn page_candidates(base: UrlParts, html: Seq<char>, table: Seq<SourceWeight>) -> Seq<
    (Seq<char>, int),
> {
    let meta = tags(html, "<meta"@);
    let main = sections(html, "main"@);
    let article = sections(html, "article"@);
    meta_candidates(base, meta, meta.len() as int) + sections_candidates(
        base,
        main,
        table,
        main.len() as int,
    ) + sections_candidates(base, article, table, article.len() as int) + html_candidates(
        base,
        html,
        PAGE_BIAS as int,
        table,
    )
}

/// The image that stands for a page.
pub fn extract_best_link_image_from_html(
    html: &str,
    base_url: &WebUrl,
    table: &Vec<SourceWeight>,
) -> (r: Option<String>)
    ensures
        opt_view(r) == best_image(page_candidates(base_url@, html@, table@)),
{
    let mut candidates: Vec<LinkImageCandidate> = extract_meta_image_candidates_from_html(
        html,
        base_url,
    );
    append_section_candidates(&mut candidates, html, "main", base_url, table);
    append_section_candidates(&mut candidates, html, "article", base_url, table);
    let rest: Vec<LinkImageCandidate> = extract_img_candidates_from_html(
        html,
        base_url,
        PAGE_BIAS,
        table,
    );
    append_candidates(&mut candidates, rest);
    pick_best_link_image(candidates)
}

proof fn lemma_meta_contains(base: UrlParts, found: Seq<Seq<char>>, n: int, i: int)
    requires
        0 <= i < n <= found.len(),
        meta_candidate(base, found[i]) is Some,
    ensures
        meta_candidates(base, found, n).contains(meta_candidate(base, found[i])->0),
    decreases n,
{
    let all = meta_candidates(base, found, n);
    let before = meta_candidates(base, found, n - 1);
    if i < n - 1 {
        lemma_meta_contains(base, found, n - 1, i);
        let c = meta_candidate(base, found[i])->0;
        let k = choose|k: int| 0 <= k < before.len() && before[k] == c;
        assert(all[k] == c);
    } else {
        assert(all[before.len() as int] == meta_candidate(base, found[i])->0);
    }
}

proof fn lemma_images_contain(
    base: UrlParts,
    found: Seq<Seq<char>>,
    bias: int,
    table: Seq<SourceWeight>,
    n: int,
    i: int,
)
    requires
        0 <= i < n <= found.len(),
        scored(base, found[i], image_source(found[i], table), bias) is Some,
    ensures
        image_candidates(base, found, bias, table, n).contains(
            scored(base, found[i], image_source(found[i], table), bias)->0,
        ),
    decreases n,
{
    let all = image_candidates(base, found, bias, table, n);
    let before = image_candidates(base, found, bias, table, n - 1);
    let c = scored(base, found[i], image_source(found[i], table), bias)->0;
    if i < n - 1 {
        lemma_images_contain(base, found, bias, table, n - 1, i);
        let k = choose|k: int| 0 <= k < before.len() && before[k] == c;
        assert(all[k] == c);
    } else {
        assert(all[before.len() as int] == c);
    }
}

proof fn lemma_sections_contain(
    base: UrlParts,
    parts: Seq<Seq<char>>,
    table: Seq<SourceWeight>,
    n: int,
    i: int,
    c: (Seq<char>, int),
)
    requires
        0 <= i < n <= parts.len(),
        html_candidates(base, parts[i], 48, table).contains(c),
    ensures
        sections_candidates(base, parts, table, n).contains(c),
    decreases n,
{
    let before = sections_candidates(base, parts, table, n - 1);
    let last = html_candidates(base, parts[n - 1], 48, table);
    let all = sections_candidates(base, parts, table, n);
    assert(all == before + last);
    if i < n - 1 {
        lemma_sections_contain(base, parts, table, n - 1, i, c);
        let k = choose|k: int| 0 <= k < before.len() && before[k] == c;
        assert(all[k] == c);
    } else {
        let k = choose|k: int| 0 <= k < last.len() && last[k] == c;
        assert(all[before.len() + k] == c);
    }
}

proof fn lemma_concat_contains<A>(a: Seq<A>, b: Seq<A>, x: A)
    ensures
        (a + b).contains(x) <==> a.contains(x) || b.contains(x),
{
    if a.contains(x) {
        let k = choose|k: int| 0 <= k < a.len() && a[k] == x;
        assert((a + b)[k] == x);
    }
    if b.contains(x) {
        let k = choose|k: int| 0 <= k < b.len() && b[k] == x;
        assert((a + b)[a.len() + k] == x);
    }
    if (a + b).contains(x) {
        let k = choose|k: int| 0 <= k < (a + b).len() && (a + b)[k] == x;
        if k >= a.len() {
            assert(b[k - a.len()] == x);
        }
    }
}

proof fn lemma_page_contains(
    base: UrlParts,
    html: Seq<char>,
    table: Seq<SourceWeight>,
    c: (Seq<char>, int),
)
    ensures
        ({
            let meta = tags(html, "<meta"@);
            let main = sections(html, "main"@);
            let article = sections(html, "article"@);
            page_candidates(base, html, table).contains(c) <==> {
                ||| meta_candidates(base, meta, meta.len() as int).contains(c)
                ||| sections_candidates(base, main, table, main.len() as int).contains(c)
                ||| sections_candidates(base, article, table, article.len() as int).contains(c)
                ||| html_candidates(base, html, 28, table).contains(c)
            }
        }),
{
    let meta = tags(html, "<meta"@);
    let main = sections(html, "main"@);
    let article = sections(html, "article"@);
    let w = meta_candidates(base, meta, meta.len() as int);
    let x = sections_candidates(base, main, table, main.len() as int);
    let y = sections_candidates(base, article, table, article.len() as int);
    let z = html_candidates(base, html, 28, table);
    lemma_concat_contains(w, x, c);
    lemma_concat_contains(w + x, y, c);
    lemma_concat_contains(w + x + y, z, c);
}

/// The images of a page are weighed by where they stand: an image in a main or an article element
/// has a bias of 48.
pub proof fn law_section_images_are_weighed(
    base: UrlParts,
    html: Seq<char>,
    table: Seq<SourceWeight>,
    section: Seq<char>,
    part: int,
    i: int,
)
    requires
        section == "main"@ || section == "article"@,
        0 <= part < sections(html, section).len(),
        0 <= i < tags(sections(html, section)[part], "<img"@).len(),
    ensures
        ({
            let tag = tags(sections(html, section)[part], "<img"@)[i];
            image_source(tag, table) matches Some(source) ==> normalized_image(base, source) matches Some(
                url,
            ) ==> page_candidates(base, html, table).contains(
                (url, image_score(tag, url, parsed_extension(url), 48)),
            )
        }),
{
    let parts = sections(html, section);
    let found = tags(parts[part], "<img"@);
    if scored(base, found[i], image_source(found[i], table), 48) is Some {
        let c = scored(base, found[i], image_source(found[i], table), 48)->0;
        lemma_images_contain(base, found, 48, table, found.len() as int, i);
        lemma_sections_contain(base, parts, table, parts.len() as int, part, c);
        lemma_page_contains(base, html, table, c);
    }
}

/// An image anywhere in a page has a bias of 28.
pub proof fn law_page_images_are_weighed(
    base: UrlParts,
    html: Seq<char>,
    table: Seq<SourceWeight>,
    i: int,
)
    requires
        0 <= i < tags(html, "<img"@).len(),
    ensures
        ({
            let tag = tags(html, "<img"@)[i];
            image_source(tag, table) matches Some(source) ==> normalized_image(base, source) matches Some(
                url,
            ) ==> page_candidates(base, html, table).contains(
                (url, image_score(tag, url, parsed_extension(url), 28)),
            )
        }),
{
    let found = tags(html, "<img"@);
    if scored(base, found[i], image_source(found[i], table), 28) is Some {
        lemma_images_contain(base, found, 28, table, found.len() as int, i);
        lemma_page_contains(
            base,
            html,
            table,
            scored(base, found[i], image_source(found[i], table), 28)->0,
        );
    }
}

/// An image that a meta tag of a page names, by one of the six properties for it, has a bias of
/// 72; the property is read from `property`, or else from `name`.
pub proof fn law_meta_images_are_weighed(
    base: UrlParts,
    html: Seq<char>,
    table: Seq<SourceWeight>,
    i: int,
    property: Seq<char>,
)
    requires
        0 <= i < tags(html, "<meta"@).len(),
        property == "og:image"@ || property == "og:image:url"@ || property
            == "og:image:secure_url"@ || property == "twitter:image"@ || property
            == "twitter:image:src"@ || property == "twitter:image:url"@,
        ({
            let tag = tags(html, "<meta"@)[i];
            match attribute(tag, "property"@) {
                Some(v) => lower(trim(v)) == property,
                None => attribute(tag, "name"@) matches Some(v) && lower(trim(v)) == property,
            }
        }),
    ensures
        ({
            let tag = tags(html, "<meta"@)[i];
            attribute(tag, "content"@) matches Some(source) ==> normalized_image(base, source) matches Some(
                url,
            ) ==> page_candidates(base, html, table).contains(
                (url, image_score(tag, url, parsed_extension(url), 72)),
            )
        }),
{
    let found = tags(html, "<meta"@);
    if meta_candidate(base, found[i]) is Some {
        lemma_meta_contains(base, found, found.len() as int, i);
        lemma_page_contains(base, html, table, meta_candidate(base, found[i])->0);
    }
}

/// The image that is chosen has the highest score of all that have an address, of several with
/// that score the first in text order, and a score of at least 8; none is chosen only where all
/// scores are lower.
pub proof fn law_chosen_image_is_best(c: Seq<(Seq<char>, int)>)
    ensures
        match best_image(c) {
            Some(url) => url.len() > 0 && exists|i: int|
                {
                    &&& 0 <= i < c.len()
                    &&& (#[trigger] c[i]).0 == url
                    &&& c[i].1 >= 8
                    &&& forall|j: int|
                        0 <= j < c.len() && (#[trigger] c[j]).0.len() > 0 ==> c[j].1 <= c[i].1 && (
                        c[j].1 == c[i].1 ==> !text_before(c[j].0, url))
                },
            None => forall|j: int|
                0 <= j < c.len() && (#[trigger] c[j]).0.len() > 0 ==> c[j].1 < 8,
        },
{
    law_best_candidate(c, c.len() as int);
    if let Some(b) = best_candidate(c, c.len() as int) {
        let i = choose|i: int| 0 <= i < c.len() && #[trigger] c[i] == b;
        assert(c[i].0 == b.0);
        assert forall|j: int| 0 <= j < c.len() && (#[trigger] c[j]).0.len() > 0 implies c[j].1
            <= c[i].1 && (c[j].1 == c[i].1 ==> !text_before(c[j].0, b.0)) by {
            assert(!preferred(c[j], b));
        }
    }
}

/// The image that stands for a page is never scored below an image in one of its main or article
/// elements.
pub proof fn law_section_images_are_not_passed_over(
    base: UrlParts,
    html: Seq<char>,
    table: Seq<SourceWeight>,
    section: Seq<char>,
    part: int,
    i: int,
    source: Seq<char>,
    url: Seq<char>,
)
    requires
        section == "main"@ || section == "article"@,
        0 <= part < sections(html, section).len(),
        0 <= i < tags(sections(html, section)[part], "<img"@).len(),
        image_source(tags(sections(html, section)[part], "<img"@)[i], table) == Some(source),
        normalized_image(base, source) == Some(url),
        url.len() > 0,
    ensures
        ({
            let tag = tags(sections(html, section)[part], "<img"@)[i];
            let score = image_score(tag, url, parsed_extension(url), 48);
            let all = page_candidates(base, html, table);
            match best_image(all) {
                Some(chosen) => exists|k: int|
                    0 <= k < all.len() && (#[trigger] all[k]).0 == chosen && all[k].1 >= score
                        && all[k].1 >= 8,
                None => score < 8,
            }
        }),
{
    let all = page_candidates(base, html, table);
    law_section_images_are_weighed(base, html, table, section, part, i);
    law_chosen_image_is_best(all);
    let tag = tags(sections(html, section)[part], "<img"@)[i];
    let c = (url, image_score(tag, url, parsed_extension(url), 48));
    assert(all.contains(c));
    let k = choose|k: int| 0 <= k < all.len() && all[k] == c;
    assert(all[k].0.len() > 0);
}

proof fn lemma_meta_origin(base: UrlParts, found: Seq<Seq<char>>, n: int, c: (Seq<char>, int))
    requires
        meta_candidates(base, found, n).contains(c),
    ensures
        exists|i: int| 0 <= i < found.len() && meta_candidate(base, #[trigger] found[i]) == Some(c),
    decreases n,
{
    let all = meta_candidates(base, found, n);
    let k = choose|k: int| 0 <= k < all.len() && all[k] == c;
    let before = meta_candidates(base, found, n - 1);
    if k < before.len() {
        assert(before[k] == c);
        lemma_meta_origin(base, found, n - 1, c);
    } else {
        assert(meta_candidate(base, found[n - 1]) == Some(c));
    }
}

proof fn lemma_images_origin(
    base: UrlParts,
    found: Seq<Seq<char>>,
    bias: int,
    table: Seq<SourceWeight>,
    n: int,
    c: (Seq<char>, int),
)
    requires
        image_candidates(base, found, bias, table, n).contains(c),
    ensures
        exists|i: int|
            0 <= i < found.len() && scored(
                base,
                #[trigger] found[i],
                image_source(found[i], table),
                bias,
            ) == Some(c),
    decreases n,
{
    let all = image_candidates(base, found, bias, table, n);
    let k = choose|k: int| 0 <= k < all.len() && all[k] == c;
    let before = image_candidates(base, found, bias, table, n - 1);
    if k < before.len() {
        assert(before[k] == c);
        lemma_images_origin(base, found, bias, table, n - 1, c);
    } else {
        assert(scored(base, found[n - 1], image_source(found[n - 1], table), bias) == Some(c));
    }
}

proof fn lemma_sections_origin(
    base: UrlParts,
    parts: Seq<Seq<char>>,
    table: Seq<SourceWeight>,
    n: int,
    c: (Seq<char>, int),
)
    requires
        sections_candidates(base, parts, table, n).contains(c),
    ensures
        exists|i: int|
            0 <= i < parts.len() && html_candidates(base, #[trigger] parts[i], 48, table).contains(
                c,
            ),
    decreases n,
{
    let before = sections_candidates(base, parts, table, n - 1);
    let last = html_candidates(base, parts[n - 1], 48, table);
    lemma_concat_contains(before, last, c);
    if before.contains(c) {
        lemma_sections_origin(base, parts, table, n - 1, c);
    } else {
        assert(html_candidates(base, parts[n - 1], 48, table).contains(c));
    }
}

/// Whether a candidate is an image that a tag gives, weighed by a bias.
pub open spec fn is_weighed(
    base: UrlParts,
    tag: Seq<char>,
    source: Option<Seq<char>>,
    bias: int,
    c: (Seq<char>, int),
) -> bool {
    source matches Some(s) && normalized_image(base, s) == Some(c.0) && c.1 == image_score(
        tag,
        c.0,
        parsed_extension(c.0),
        bias,
    )
}

/// Every candidate of a page comes from it: from the content of a meta tag, from an image of a
/// main or an article element, or from an image anywhere.
pub proof fn law_candidates_come_from_the_page(
    base: UrlParts,
    html: Seq<char>,
    table: Seq<SourceWeight>,
    c: (Seq<char>, int),
)
    requires
        page_candidates(base, html, table).contains(c),
    ensures
        ({
            ||| exists|i: int|
                0 <= i < tags(html, "<meta"@).len() && is_weighed(
                    base,
                    #[trigger] tags(html, "<meta"@)[i],
                    attribute(tags(html, "<meta"@)[i], "content"@),
                    72,
                    c,
                )
            ||| exists|part: int, i: int|
                0 <= part < sections(html, "main"@).len() && 0 <= i < tags(
                    sections(html, "main"@)[part],
                    "<img"@,
                ).len() && is_weighed(
                    base,
                    #[trigger] tags(sections(html, "main"@)[part], "<img"@)[i],
                    image_source(tags(sections(html, "main"@)[part], "<img"@)[i], table),
                    48,
                    c,
                )
            ||| exists|part: int, i: int|
                0 <= part < sections(html, "article"@).len() && 0 <= i < tags(
                    sections(html, "article"@)[part],
                    "<img"@,
                ).len() && is_weighed(
                    base,
                    #[trigger] tags(sections(html, "article"@)[part], "<img"@)[i],
                    image_source(tags(sections(html, "article"@)[part], "<img"@)[i], table),
                    48,
                    c,
                )
            ||| exists|i: int|
                0 <= i < tags(html, "<img"@).len() && is_weighed(
                    base,
                    #[trigger] tags(html, "<img"@)[i],
                    image_source(tags(html, "<img"@)[i], table),
                    28,
                    c,
                )
        }),
{
    lemma_page_contains(base, html, table, c);
    let meta = tags(html, "<meta"@);
    let main = sections(html, "main"@);
    let article = sections(html, "article"@);
    let whole = tags(html, "<img"@);
    if meta_candidates(base, meta, meta.len() as int).contains(c) {
        lemma_meta_origin(base, meta, meta.len() as int, c);
        let i = choose|i: int|
            0 <= i < meta.len() && meta_candidate(base, #[trigger] meta[i]) == Some(c);
        assert(is_weighed(base, meta[i], attribute(meta[i], "content"@), 72, c));
    } else if sections_candidates(base, main, table, main.len() as int).contains(c) {
        lemma_sections_origin(base, main, table, main.len() as int, c);
        let part = choose|part: int|
            0 <= part < main.len() && html_candidates(
                base,
                #[trigger] main[part],
                48,
                table,
            ).contains(c);
        let found = tags(main[part], "<img"@);
        lemma_images_origin(base, found, 48, table, found.len() as int, c);
        let i = choose|i: int|
            0 <= i < found.len() && scored(
                base,
                #[trigger] found[i],
                image_source(found[i], table),
                48,
            ) == Some(c);
        assert(is_weighed(
            base,
            tags(sections(html, "main"@)[part], "<img"@)[i],
            image_source(found[i], table),
            48,
            c,
        ));
    } else if sections_candidates(base, article, table, article.len() as int).contains(c) {
        lemma_sections_origin(base, article, table, article.len() as int, c);
        let part = choose|part: int|
            0 <= part < article.len() && html_candidates(
                base,
                #[trigger] article[part],
                48,
                table,
            ).contains(c);
        let found = tags(article[part], "<img"@);
        lemma_images_origin(base, found, 48, table, found.len() as int, c);
        let i = choose|i: int|
            0 <= i < found.len() && scored(
                base,
                #[trigger] found[i],
                image_source(found[i], table),
                48,
            ) == Some(c);
        assert(is_weighed(
            base,
            tags(sections(html, "article"@)[part], "<img"@)[i],
            image_source(found[i], table),
            48,
            c,
        ));
    } else {
        lemma_images_origin(base, whole, 28, table, whole.len() as int, c);
        let i = choose|i: int|
            0 <= i < whole.len() && scored(
                base,
                #[trigger] whole[i],
                image_source(whole[i], table),
                28,
            ) == Some(c);
        assert(is_weighed(base, whole[i], image_source(whole[i], table), 28, c));
    }
}

// ---------------------------------------------------------------------------
// The descriptors of a page
// ---------------------------------------------------------------------------
/// The descriptors in a source set attribute of a tag.
pub open spec fn attribute_descriptors(tag: Seq<char>, attr: Seq<char>) -> Seq<Seq<char>> {
    match filled_attribute(tag, attr) {
        Some(v) => descriptors_from(pieces(v, ','), 0),
        None => Seq::empty(),
    }
}

/// The descriptors in the source sets of the first `n` tags.
pub open spec fn tag_descriptors(found: Seq<Seq<char>>, n: int) -> Seq<Seq<char>>
    decreases n,
{
    if n <= 0 || n > found.len() {
        Seq::empty()
    } else {
        tag_descriptors(found, n - 1) + attribute_descriptors(found[n - 1], "srcset"@)
            + attribute_descriptors(found[n - 1], "data-srcset"@)
    }
}

fn push_html_descriptors(out: &mut Vec<String>, html: &str)
    ensures
        views(final(out)@) == views(old(out)@) + tag_descriptors(
            tags(html@, "<img"@),
            tags(html@, "<img"@).len() as int,
        ),
{
    let ghost start = views(out@);
    let found: Vec<String> = scan_tags(html, "<img");
    let ghost all = tags(html@, "<img"@);
    let mut i: usize = 0;
    assert(start + Seq::<Seq<char>>::empty() =~= start);
    while i < found.len()
        invariant
            i <= found.len(),
            views(found@) == all,
            views(out@) == start + tag_descriptors(all, i as int),
        decreases found.len() - i,
    {
        assert(views(found@)[i as int] == found@[i as int]@);
        let tag: &str = found[i].as_str();
        let ghost before = views(out@);
        let ghost first = attribute_descriptors(tag@, "srcset"@);
        let ghost second = attribute_descriptors(tag@, "data-srcset"@);
        if let Some(v) = filled_attribute_of(tag, "srcset") {
            push_descriptors(out, v.as_str());
        }
        assert(views(out@) =~= before + first);
        if let Some(v) = filled_attribute_of(tag, "data-srcset") {
            push_descriptors(out, v.as_str());
        }
        assert(views(out@) =~= before + first + second);
        proof {
            let t = tag_descriptors(all, i as int);
            assert((start + t) + first + second =~= start + (t + first + second));
        }
        i = i + 1;
    }
}

/// The descriptors in the first `n` of several pieces of markup.
pub open spec fn sections_descriptors(parts: Seq<Seq<char>>, n: int) -> Seq<Seq<char>>
    decreases n,
{
    if n <= 0 || n > parts.len() {
        Seq::empty()
    } else {
        let found = tags(parts[n - 1], "<img"@);
        sections_descriptors(parts, n - 1) + tag_descriptors(found, found.len() as int)
    }
}

fn push_section_descriptors(out: &mut Vec<String>, html: &str, section_tag: &str)
    ensures
        views(final(out)@) == views(old(out)@) + sections_descriptors(
            sections(html@, section_tag@),
            sections(html@, section_tag@).len() as int,
        ),
{
    let ghost start = views(out@);
    let parts: Vec<String> = extract_section_html_fragments(html, section_tag);
    let ghost all = sections(html@, section_tag@);
    let mut i: usize = 0;
    assert(start + Seq::<Seq<char>>::empty() =~= start);
    while i < parts.len()
        invariant
            i <= parts.len(),
            views(parts@) == all,
            views(out@) == start + sections_descriptors(all, i as int),
        decreases parts.len() - i,
    {
        assert(views(parts@)[i as int] == parts@[i as int]@);
        push_html_descriptors(out, parts[i].as_str());
        proof {
            let before = sections_descriptors(all, i as int);
            let found = tags(all[i as int], "<img"@);
            let added = tag_descriptors(found, found.len() as int);
            assert((start + before) + added =~= start + (before + added));
        }
        i = i + 1;
    }
}

/// The descriptors that have to be ranked to choose the image of a page.
pub open spec fn page_descriptors(html: Seq<char>) -> Seq<Seq<char>> {
    let main = sections(html, "main"@);
    let article = sections(html, "article"@);
    let found = tags(html, "<img"@);
    sections_descriptors(main, main.len() as int) + sections_descriptors(
        article,
        article.len() as int,
    ) + tag_descriptors(found, found.len() as int)
}

pub fn collect_source_descriptors(html: &str) -> (r: Vec<String>)
    ensures
        views(r@) == page_descriptors(html@),
{
    let mut out: Vec<String> = Vec::new();
    assert(views(out@) =~= Seq::<Seq<char>>::empty());
    push_section_descriptors(&mut out, html, "main");
    push_section_descriptors(&mut out, html, "article");
    push_html_descriptors(&mut out, html);
    proof {
        let e = Seq::<Seq<char>>::empty();
        let m = sections_descriptors(
            sections(html@, "main"@),
            sections(html@, "main"@).len() as int,
        );
        assert(e + m =~= m);
    }
    out
}

proof fn lemma_descriptors_from(entries: Seq<Seq<char>>, i: int, j: int)
    requires
        0 <= i <= j < entries.len(),
        source_entry(entries[j]) is Some,
    ensures
        descriptors_from(entries, i).contains((source_entry(entries[j])->0).1),
    decreases entries.len() - i,
{
    let d = (source_entry(entries[j])->0).1;
    if i < j {
        lemma_descriptors_from(entries, i + 1, j);
        let rest = descriptors_from(entries, i + 1);
        let k = choose|k: int| 0 <= k < rest.len() && rest[k] == d;
        match source_entry(entries[i]) {
            Some(p) => {
                assert(descriptors_from(entries, i)[k + 1] == d);
            },
            None => {
                assert(descriptors_from(entries, i)[k] == d);
            },
        }
    } else {
        assert(descriptors_from(entries, i)[0] == d);
    }
}

proof fn lemma_tag_descriptors(found: Seq<Seq<char>>, n: int, t: int, d: Seq<char>)
    requires
        0 <= t < n <= found.len(),
        attribute_descriptors(found[t], "srcset"@).contains(d) || attribute_descriptors(
            found[t],
            "data-srcset"@,
        ).contains(d),
    ensures
        tag_descriptors(found, n).contains(d),
    decreases n,
{
    let a = attribute_descriptors(found[n - 1], "srcset"@);
    let b = attribute_descriptors(found[n - 1], "data-srcset"@);
    let before = tag_descriptors(found, n - 1);
    let all = tag_descriptors(found, n);
    if t < n - 1 {
        lemma_tag_descriptors(found, n - 1, t, d);
        let k = choose|k: int| 0 <= k < before.len() && before[k] == d;
        assert(all[k] == d);
    } else if a.contains(d) {
        let k = choose|k: int| 0 <= k < a.len() && a[k] == d;
        assert(all[before.len() + k] == d);
    } else {
        let k = choose|k: int| 0 <= k < b.len() && b[k] == d;
        assert(all[before.len() + a.len() + k] == d);
    }
}

/// The collected descriptors are complete: every entry of a source set of an image tag of the page
/// has its descriptor among them.
pub proof fn law_descriptors_are_complete(
    html: Seq<char>,
    t: int,
    attr: Seq<char>,
    srcset: Seq<char>,
    j: int,
)
    requires
        0 <= t < tags(html, "<img"@).len(),
        attr == "srcset"@ || attr == "data-srcset"@,
        filled_attribute(tags(html, "<img"@)[t], attr) == Some(srcset),
        0 <= j < pieces(srcset, ',').len(),
        source_entry(pieces(srcset, ',')[j]) is Some,
    ensures
        page_descriptors(html).contains((source_entry(pieces(srcset, ',')[j])->0).1),
{
    let found = tags(html, "<img"@);
    let d = (source_entry(pieces(srcset, ',')[j])->0).1;
    lemma_descriptors_from(pieces(srcset, ','), 0, j);
    assert(attribute_descriptors(found[t], attr).contains(d));
    lemma_tag_descriptors(found, found.len() as int, t, d);
    let last = tag_descriptors(found, found.len() as int);
    let k = choose|k: int| 0 <= k < last.len() && last[k] == d;
    let all = page_descriptors(html);
    assert(all[all.len() - last.len() + k] == d);
}

proof fn lemma_sections_descriptors(parts: Seq<Seq<char>>, n: int, p: int, t: int, d: Seq<char>)
    requires
        0 <= p < n <= parts.len(),
        0 <= t < tags(parts[p], "<img"@).len(),
        attribute_descriptors(tags(parts[p], "<img"@)[t], "srcset"@).contains(d)
            || attribute_descriptors(tags(parts[p], "<img"@)[t], "data-srcset"@).contains(d),
    ensures
        sections_descriptors(parts, n).contains(d),
    decreases n,
{
    let found = tags(parts[n - 1], "<img"@);
    let before = sections_descriptors(parts, n - 1);
    let last = tag_descriptors(found, found.len() as int);
    if p < n - 1 {
        lemma_sections_descriptors(parts, n - 1, p, t, d);
    } else {
        lemma_tag_descriptors(found, found.len() as int, t, d);
    }
    lemma_concat_contains(before, last, d);
}

/// The collected descriptors are complete for main and article elements too.
pub proof fn law_section_descriptors_are_complete(
    html: Seq<char>,
    section: Seq<char>,
    part: int,
    t: int,
    attr: Seq<char>,
    srcset: Seq<char>,
    j: int,
)
    requires
        section == "main"@ || section == "article"@,
        0 <= part < sections(html, section).len(),
        0 <= t < tags(sections(html, section)[part], "<img"@).len(),
        attr == "srcset"@ || attr == "data-srcset"@,
        filled_attribute(tags(sections(html, section)[part], "<img"@)[t], attr) == Some(srcset),
        0 <= j < pieces(srcset, ',').len(),
        source_entry(pieces(srcset, ',')[j]) is Some,
    ensures
        page_descriptors(html).contains((source_entry(pieces(srcset, ',')[j])->0).1),
{
    let parts = sections(html, section);
    let found = tags(parts[part], "<img"@);
    let d = (source_entry(pieces(srcset, ',')[j])->0).1;
    lemma_descriptors_from(pieces(srcset, ','), 0, j);
    assert(attribute_descriptors(found[t], attr).contains(d));
    lemma_sections_descriptors(parts, parts.len() as int, part, t, d);
    let main = sections(html, "main"@);
    let article = sections(html, "article"@);
    let page = tags(html, "<img"@);
    let a = sections_descriptors(main, main.len() as int);
    let b = sections_descriptors(article, article.len() as int);
    lemma_concat_contains(a, b, d);
    lemma_concat_contains(a + b, tag_descriptors(page, page.len() as int), d);
}

// ---------------------------------------------------------------------------
// Finding the image of a link
// ---------------------------------------------------------------------------
/// What is to be done to find the image of a link.
pub enum LinkImagePlan {
    /// The link has no image.
    Nothing,
    /// The link is an image itself.
    Direct(String),
    /// The page behind the link is to be read.
    Fetch { address: String, base: WebUrl },
}

pub open spec fn is_link_image_plan(
    plan: LinkImagePlan,
    trimmed: Seq<char>,
    parsed: Result<UrlParts, Seq<char>>,
) -> bool {
    match parsed {
        Ok(u) => if trimmed.len() == 0 || !is_web_scheme(u.scheme) {
            plan is Nothing
        } else if image_extension(path_extension(u.path)) {
            plan matches LinkImagePlan::Direct(address) && address@ == trimmed
        } else {
            plan matches LinkImagePlan::Fetch { address, base } && address@ == trimmed && base@
                == u
        },
        Err(_) => plan is Nothing,
    }
}

/// Plans the search for the image of a link whose trimmed text parsed as given.
pub fn plan_parsed_link_image(trimmed: &str, parsed: Result<WebUrl, String>) -> (r: LinkImagePlan)
    ensures
        is_link_image_plan(r, trimmed@, url_result(parsed)),
{
    match parsed {
        Ok(u) => {
            if trimmed.is_empty() || !has_web_scheme(&u) {
                LinkImagePlan::Nothing
            } else if link_url_has_image_extension(&u) {
                LinkImagePlan::Direct(trimmed.to_owned())
            } else {
                LinkImagePlan::Fetch { address: trimmed.to_owned(), base: u }
            }
        },
        Err(_) => LinkImagePlan::Nothing,
    }
}

/// Plans the search for the image of a link.
pub fn plan_link_image(link_url: &str) -> (r: LinkImagePlan)
    ensures
        is_link_image_plan(r, trim(link_url@), url_parsed(trim(link_url@))),
{
    let trimmed: String = trim_text(link_url);
    let parsed: Result<WebUrl, String> = parse_url(trimmed.as_str());
    plan_parsed_link_image(trimmed.as_str(), parsed)
}

/// The image of the page that a plan had to read; nothing where the page could not be read.
pub fn finish_link_image(
    base: &WebUrl,
    html: Option<&str>,
    table: &Vec<SourceWeight>,
) -> (r: String)
    ensures
        r@ == (match html {
            Some(page) => match best_image(page_candidates(base@, page@, table@)) {
                Some(url) => url,
                None => Seq::empty(),
            },
            None => Seq::empty(),
        }),
{
    match html {
        Some(page) => match extract_best_link_image_from_html(page, base, table) {
            Some(url) => url,
            None => String::new(),
        },
        None => String::new(),
    }
}

/// Whether a response of the given content type is a page.
pub fn is_html_content_type(content_type: &str) -> (r: bool)
    ensures
        r == (contains_text(lower(content_type@), "text/html"@) || contains_text(
            lower(content_type@),
            "application/xhtml+xml"@,
        )),
{
    let lowered: String = to_lower(content_type);
    contains(lowered.as_str(), "text/html") || contains(lowered.as_str(), "application/xhtml+xml")
}

// ---------------------------------------------------------------------------
// Previews
// ---------------------------------------------------------------------------
/// The title, the description and the image of a link preview.
pub struct LinkPreview {
    pub title: String,
    pub description: String,
    pub image_url: String,
}

#[verifier::ext_equal]
pub struct PreviewParts {
    pub title: Seq<char>,
    pub description: Seq<char>,
    pub image_url: Seq<char>,
}

impl View for LinkPreview {
    type V = PreviewParts;

    open spec fn view(&self) -> PreviewParts {
        PreviewParts {
            title: self.title@,
            description: self.description@,
            image_url: self.image_url@,
        }
    }
}

/// A description cut to 117 characters and an ellipsis where it has more than 120.
pub open spec fn cut_description(d: Seq<char>) -> Seq<char> {
    if d.len() > 120 {
        d.take(117) + "..."@
    } else {
        d
    }
}

/// The path without slashes around it, and the query.
pub open spec fn address_description(u: UrlParts) -> Seq<char> {
    let path = trim_of(u.path, CharClass::Only('/'));
    let full = match u.query {
        Some(q) => path + "?"@ + q,
        None => path,
    };
    if full.len() == 0 {
        "Open link"@
    } else {
        cut_description(full)
    }
}

/// The preview of a link whose trimmed text parsed as given.
pub open spec fn preview(trimmed: Seq<char>, parsed: Result<UrlParts, Seq<char>>) -> PreviewParts {
    if trimmed.len() == 0 {
        PreviewParts { title: Seq::empty(), description: Seq::empty(), image_url: Seq::empty() }
    } else {
        match parsed {
            Ok(u) => PreviewParts {
                title: match u.host {
                    Some(host) => host,
                    None => "External link"@,
                },
                description: address_description(u),
                image_url: if image_extension(path_extension(u.path)) {
                    trimmed
                } else {
                    Seq::empty()
                },
            },
            Err(_) => PreviewParts {
                title: "External link"@,
                description: trimmed,
                image_url: Seq::empty(),
            },
        }
    }
}

fn describe_address(u: &WebUrl) -> (r: String)
    ensures
        r@ == address_description(u@),
{
    let mut description: String = trim_matches(u.path.as_str(), CharClass::Only('/'));
    if let Some(q) = &u.query {
        description.append("?");
        description.append(q.as_str());
    }
    if description.as_str().is_empty() {
        return "Open link".to_owned();
    }
    if description.as_str().unicode_len() > 120 {
        let mut cut: String = truncate_chars(description.as_str(), 117);
        cut.append("...");
        return cut;
    }
    description
}

/// Builds the preview of a link whose trimmed text parsed as given.
pub fn preview_parsed_link(trimmed: &str, parsed: &Result<WebUrl, String>) -> (r: LinkPreview)
    ensures
        r@ == preview(trimmed@, url_result(*parsed)),
{
    if trimmed.is_empty() {
        return LinkPreview {
            title: String::new(),
            description: String::new(),
            image_url: String::new(),
        };
    }
    match parsed {
        Ok(u) => {
            let title: String = match &u.host {
                Some(host) => host.clone(),
                None => "External link".to_owned(),
            };
            let image_url: String = if link_url_has_image_extension(u) {
                trimmed.to_owned()
            } else {
                String::new()
            };
            LinkPreview { title, description: describe_address(u), image_url }
        },
        Err(_) => LinkPreview {
            title: "External link".to_owned(),
            description: trimmed.to_owned(),
            image_url: String::new(),
        },
    }
}

/// Builds the preview of a link.
pub fn build_link_preview_data(link_url: &str) -> (r: LinkPreview)
    ensures
        r@ == preview(trim(link_url@), url_parsed(trim(link_url@))),
{
    let trimmed: String = trim_text(link_url);
    let parsed: Result<WebUrl, String> = parse_url(trimmed.as_str());
    preview_parsed_link(trimmed.as_str(), &parsed)
}

/// The description of a preview never has more than 120 characters where the link parses.
pub proof fn law_preview_description_is_short(trimmed: Seq<char>, u: UrlParts)
    ensures
        preview(trimmed, Ok(u)).description.len() <= 120,
{
    reveal_strlit("...");
    reveal_strlit("Open link");
}

// ---------------------------------------------------------------------------
// What counts for an image
// ---------------------------------------------------------------------------
/// A post can have no link, or one to a web address with a host; nothing else.
pub proof fn law_supported_links(text: Seq<char>)
    ensures
        trim(text).len() == 0 ==> supported_link(text),
        url_parsed(trim(text)) matches Ok(u) ==> trim(text).len() > 0 ==> (supported_link(text)
            <==> (u.scheme == "http"@ || u.scheme == "https"@) && u.host is Some),
        url_parsed(trim(text)) is Err && trim(text).len() > 0 ==> !supported_link(text),
{
}

/// The first word of a text that is a link, without the punctuation around it, is its link.
pub proof fn law_first_link_counts(w: Seq<Seq<char>>, from: int, at: int)
    requires
        0 <= from <= at < w.len(),
        link_candidate(w[at]).len() > 0,
        supported_link(link_candidate(w[at])),
        forall|j: int|
            from <= j < at ==> link_candidate(#[trigger] w[j]).len() == 0 || !supported_link(
                link_candidate(w[j]),
            ),
    ensures
        first_link(w, from) == Some(link_candidate(w[at])),
    decreases at - from,
{
    if from < at {
        assert(link_candidate(w[from]).len() == 0 || !supported_link(link_candidate(w[from])));
        law_first_link_counts(w, from + 1, at);
    }
}

/// A word without punctuation at its ends is taken as a link as it is.
pub proof fn law_plain_words_are_links(word: Seq<char>)
    requires
        word.len() > 0,
        is_alnum(word[0]) || word[0] == '/',
        is_alnum(word.last()) || word.last() == '/',
    ensures
        link_candidate(word) == word,
{
    law_trim_fixed(word, CharClass::LinkPunctuation);
}

/// Punctuation around a word does not belong to the link.
pub proof fn law_punctuation_around_links(before: Seq<char>, word: Seq<char>, after: Seq<char>)
    requires
        word.len() > 0,
        is_alnum(word[0]) || word[0] == '/',
        is_alnum(word.last()) || word.last() == '/',
        forall|i: int|
            0 <= i < before.len() ==> in_class(CharClass::LinkPunctuation, #[trigger] before[i]),
        forall|i: int|
            0 <= i < after.len() ==> in_class(CharClass::LinkPunctuation, #[trigger] after[i]),
    ensures
        link_candidate(before + word + after) == word,
{
    law_trim_fixed(word, CharClass::LinkPunctuation);
    law_trim_takes_the_class_away(before, word, after, CharClass::LinkPunctuation);
}

/// The kinds of images that a page can show.
pub proof fn law_image_extensions(ext: Seq<char>)
    ensures
        image_extension(ext) <==> ext == "jpg"@ || ext == "jpeg"@ || ext == "png"@ || ext == "gif"@
            || ext == "webp"@ || ext == "avif"@ || ext == "bmp"@,
{
}

/// References to data and scripts are no images, whatever their case, nor are blank ones; others
/// are taken without the space around them, with their entities decoded.
pub proof fn law_image_references(candidate: Seq<char>)
    ensures
        ({
            let d = decoded_entities(trim(candidate));
            &&& d.len() == 0 ==> image_reference(candidate) is None
            &&& starts_with_text(lower(d), "data:"@) ==> image_reference(candidate) is None
            &&& starts_with_text(lower(d), "javascript:"@) ==> image_reference(candidate) is None
            &&& image_reference(candidate) is None ==> d.len() == 0 || starts_with_text(
                lower(d),
                "data:"@,
            ) || starts_with_text(lower(d), "javascript:"@)
            &&& image_reference(candidate) matches Some(r) ==> r == d
        }),
{
}

/// The image that a page refers to: with the scheme of the page where the reference begins with two
/// slashes, by itself where it is an address, and else from the page; and never one that is not of
/// the web.
pub proof fn law_normalized_images(base: UrlParts, candidate: Seq<char>, reference: Seq<char>)
    requires
        image_reference(candidate) == Some(reference),
    ensures
        url_parsed(base.scheme + ":"@ + reference) matches Ok(u) ==> starts_with_text(
            reference,
            "//"@,
        ) && (u.scheme == "http"@ || u.scheme == "https"@) ==> normalized_image(base, candidate)
            == Some(u.href),
        url_parsed(reference) matches Ok(v) ==> url_parsed(v.href) matches Ok(u)
            ==> !starts_with_text(reference, "//"@) && (u.scheme == "http"@ || u.scheme
            == "https"@) ==> normalized_image(base, candidate) == Some(u.href),
        url_joined(base.href, reference) matches Ok(v) ==> url_parsed(v.href) matches Ok(u)
            ==> !starts_with_text(reference, "//"@) && url_parsed(reference) is Err && (u.scheme
            == "http"@ || u.scheme == "https"@) ==> normalized_image(base, candidate) == Some(
            u.href,
        ),
        normalized_image(base, candidate) matches Some(url) ==> exists|text: Seq<char>|
            {
                &&& #[trigger] url_parsed(text) matches Ok(u) && u.href == url && (u.scheme
                    == "http"@ || u.scheme == "https"@)
            },
{
}

/// The rank of a descriptor is that of its first entry in a table.
pub proof fn law_first_weight_counts(
    table: Seq<SourceWeight>,
    descriptor: Seq<char>,
    from: int,
    at: int,
)
    requires
        0 <= from <= at < table.len(),
        table[at].descriptor@ == descriptor,
        forall|j: int| from <= j < at ==> (#[trigger] table[j]).descriptor@ != descriptor,
    ensures
        weight_of(table, descriptor, from) == table[at].weight,
    decreases at - from,
{
    if from < at {
        assert(table[from].descriptor@ != descriptor);
        law_first_weight_counts(table, descriptor, from + 1, at);
    }
}

/// What an entry of a source set is worth: the rank of its descriptor.
pub open spec fn worth(entry: Seq<char>, table: Seq<SourceWeight>) -> Option<i64> {
    match source_entry(entry) {
        Some((_, d)) => weight_of(table, d, 0),
        None => None,
    }
}

/// Whether an entry is the one to take: no other is worth more, and none behind it as much.
pub open spec fn is_best_entry(
    entries: Seq<Seq<char>>,
    table: Seq<SourceWeight>,
    n: int,
    at: int,
) -> bool {
    &&& 0 <= at < n
    &&& worth(entries[at], table) matches Some(w) && w >= 0 && forall|j: int|
        #![trigger entries[j]]
        0 <= j < n ==> (worth(entries[j], table) matches Some(v) ==> v <= w && (j > at ==> v < w))
}

proof fn lemma_best_source(entries: Seq<Seq<char>>, table: Seq<SourceWeight>, n: int)
    requires
        0 <= n <= entries.len(),
    ensures
        best_source(entries, table, n) matches Some((url, w)) ==> exists|at: int|
            #[trigger] is_best_entry(entries, table, n, at) && (source_entry(entries[at]) matches Some(
                (u, _),
            ) && u == url) && worth(entries[at], table) == Some(w),
        best_source(entries, table, n) is None ==> forall|j: int|
            #![trigger entries[j]]
            0 <= j < n ==> (worth(entries[j], table) matches Some(v) ==> v < 0),
    decreases n,
{
    if n > 0 {
        lemma_best_source(entries, table, n - 1);
        let before = best_source(entries, table, n - 1);
        let now = best_source(entries, table, n);
        if let Some((url, w)) = now {
            let last = entries[n - 1];
            let taken = worth(last, table) matches Some(v) && v >= (match before {
                Some((_, b)) => b,
                None => 0,
            });
            if taken {
                assert(is_best_entry(entries, table, n, n - 1));
            } else {
                let at = choose|at: int| #[trigger]
                    is_best_entry(entries, table, n - 1, at) && (source_entry(entries[at]) matches Some(
                        (u, _),
                    ) && u == url) && worth(entries[at], table) == Some(w);
                assert(is_best_entry(entries, table, n, at));
            }
        }
    }
}

/// A source set offers the address of the entry that is worth most, of several the last one; none
/// only where no entry has a rank of zero or more.
pub proof fn law_source_sets(srcset: Seq<char>, table: Seq<SourceWeight>)
    ensures
        ({
            let entries = pieces(srcset, ',');
            match chosen_source(srcset, table) {
                Some(url) => exists|at: int|
                    #[trigger] is_best_entry(entries, table, entries.len() as int, at) && (
                    source_entry(entries[at]) matches Some((u, _)) && u == url),
                None => forall|j: int|
                    #![trigger entries[j]]
                    0 <= j < entries.len() ==> (worth(entries[j], table) matches Some(v) ==> v < 0),
            }
        }),
{
    let entries = pieces(srcset, ',');
    lemma_best_source(entries, table, entries.len() as int);
}

/// An entry of a source set is an address and, behind it, a descriptor.
pub proof fn law_source_entries(url: Seq<char>, descriptor: Seq<char>)
    requires
        url.len() > 0,
        forall|i: int| 0 <= i < url.len() ==> !is_white(#[trigger] url[i]),
        descriptor.len() > 0,
        forall|i: int| 0 <= i < descriptor.len() ==> !is_white(#[trigger] descriptor[i]),
    ensures
        source_entry(url) == Some((url, Seq::<char>::empty())),
        source_entry(url.push(' ') + descriptor) == Some((url, descriptor)),
{
    let both = url.push(' ') + descriptor;
    law_words(url, ' ', descriptor);
    law_words(descriptor, ' ', Seq::empty());
    law_trim_fixed(url, CharClass::White);
    assert(both[0] == url[0] && both.last() == descriptor.last());
    law_trim_fixed(both, CharClass::White);
}

/// The source of an image is what the first of these gives that gives anything: the three
/// attributes for loading later, the two source sets, and the plain source.
pub proof fn law_image_sources(tag: Seq<char>, table: Seq<SourceWeight>)
    ensures
        ({
            let a = filled_attribute(tag, "data-src"@);
            let b = filled_attribute(tag, "data-lazy-src"@);
            let c = filled_attribute(tag, "data-original"@);
            let d = set_source(tag, "srcset"@, table);
            let e = set_source(tag, "data-srcset"@, table);
            let f = filled_attribute(tag, "src"@);
            let r = image_source(tag, table);
            &&& a is Some ==> r == a
            &&& a is None && b is Some ==> r == b
            &&& a is None && b is None && c is Some ==> r == c
            &&& a is None && b is None && c is None && d is Some ==> r == d
            &&& a is None && b is None && c is None && d is None && e is Some ==> r == e
            &&& a is None && b is None && c is None && d is None && e is None ==> r == f
        }),
{
}

/// An attribute that is not blank counts without the space around it.
pub proof fn law_filled_attributes(tag: Seq<char>, attr: Seq<char>)
    ensures
        attribute(tag, attr) matches Some(v) ==> trim(v).len() > 0 ==> filled_attribute(tag, attr)
            == Some(trim(v)),
        attribute(tag, attr) matches Some(v) ==> trim(v).len() == 0 ==> filled_attribute(tag, attr)
            is None,
        attribute(tag, attr) is None ==> filled_attribute(tag, attr) is None,
{
}

/// Whether a tag or the address of its image holds a word, whatever the case.
pub open spec fn shows_word(tag: Seq<char>, image_url: Seq<char>, word: Seq<char>) -> bool {
    contains_text(lower(tag) + " "@ + lower(image_url), word)
}

/// Whether an image looks like one of the site's furniture.
pub open spec fn looks_like_furniture(tag: Seq<char>, url: Seq<char>) -> bool {
    ||| shows_word(tag, url, "logo"@)
    ||| shows_word(tag, url, "favicon"@)
    ||| shows_word(tag, url, "icon"@)
    ||| shows_word(tag, url, "avatar"@)
    ||| shows_word(tag, url, "brandmark"@)
    ||| shows_word(tag, url, "sprite"@)
    ||| shows_word(tag, url, "header-logo"@)
    ||| shows_word(tag, url, "nav-logo"@)
    ||| shows_word(tag, url, "navbar"@)
    ||| shows_word(tag, url, "site-header"@)
    ||| shows_word(tag, url, "apple-touch-icon"@)
    ||| shows_word(tag, url, "mask-icon"@)
    ||| shows_word(tag, url, "placeholder"@)
    ||| shows_word(tag, url, "spacer"@)
    ||| shows_word(tag, url, "pixel"@)
}

/// Whether an image looks like one of the page's content.
pub open spec fn looks_like_content(tag: Seq<char>, url: Seq<char>) -> bool {
    ||| shows_word(tag, url, "hero"@)
    ||| shows_word(tag, url, "featured"@)
    ||| shows_word(tag, url, "feature-image"@)
    ||| shows_word(tag, url, "cover"@)
    ||| shows_word(tag, url, "article"@)
    ||| shows_word(tag, url, "blog"@)
    ||| shows_word(tag, url, "post"@)
    ||| shows_word(tag, url, "story"@)
    ||| shows_word(tag, url, "content-image"@)
}

proof fn lemma_furniture(tag: Seq<char>, url: Seq<char>)
    ensures
        has_marker(lower(tag) + " "@ + lower(url), furniture_markers()) <==> looks_like_furniture(
            tag,
            url,
        ),
{
    let m = furniture_markers();
    let h = lower(tag) + " "@ + lower(url);
    assert(m.len() == 15);
    if looks_like_furniture(tag, url) {
        assert(m[0]@ == "logo"@ && m[1]@ == "favicon"@ && m[2]@ == "icon"@ && m[3]@ == "avatar"@
            && m[4]@ == "brandmark"@ && m[5]@ == "sprite"@ && m[6]@ == "header-logo"@ && m[7]@
            == "nav-logo"@ && m[8]@ == "navbar"@ && m[9]@ == "site-header"@ && m[10]@
            == "apple-touch-icon"@ && m[11]@ == "mask-icon"@ && m[12]@ == "placeholder"@ && m[13]@
            == "spacer"@ && m[14]@ == "pixel"@);
    }
    if has_marker(h, m) {
        let i = choose|i: int| 0 <= i < m.len() && contains_text(h, (#[trigger] m[i])@);
        assert(i == 0 || i == 1 || i == 2 || i == 3 || i == 4 || i == 5 || i == 6 || i == 7 || i
            == 8 || i == 9 || i == 10 || i == 11 || i == 12 || i == 13 || i == 14);
    }
}

proof fn lemma_content(tag: Seq<char>, url: Seq<char>)
    ensures
        has_marker(lower(tag) + " "@ + lower(url), content_markers()) <==> looks_like_content(
            tag,
            url,
        ),
{
    let m = content_markers();
    let h = lower(tag) + " "@ + lower(url);
    assert(m.len() == 9);
    if looks_like_content(tag, url) {
        assert(m[0]@ == "hero"@ && m[1]@ == "featured"@ && m[2]@ == "feature-image"@ && m[3]@
            == "cover"@ && m[4]@ == "article"@ && m[5]@ == "blog"@ && m[6]@ == "post"@ && m[7]@
            == "story"@ && m[8]@ == "content-image"@);
    }
    if has_marker(h, m) {
        let i = choose|i: int| 0 <= i < m.len() && contains_text(h, (#[trigger] m[i])@);
        assert(i == 0 || i == 1 || i == 2 || i == 3 || i == 4 || i == 5 || i == 6 || i == 7 || i
            == 8);
    }
}

/// An image loses 70 points where it looks like furniture of the site, and gains 18 where it looks
/// like content; one that is hidden loses 25; a photograph gains 10 and a drawing loses 55 by the
/// extension.
pub proof fn law_image_points(
    tag: Seq<char>,
    url: Seq<char>,
    extension: Option<Seq<char>>,
    bias: int,
)
    ensures
        image_score(tag, url, extension, bias) == bias + size_score(
            tag_dimension(tag, "width"@),
            tag_dimension(tag, "height"@),
        ) + (if looks_like_furniture(tag, url) {
            -70int
        } else {
            0
        }) + (if looks_like_content(tag, url) {
            18int
        } else {
            0
        }) + (if contains_text(lower(tag), "display:none"@) || contains_text(
            lower(tag),
            "visibility:hidden"@,
        ) {
            -25int
        } else {
            0
        }) + (if extension == Some("svg"@) {
            -55int
        } else if extension == Some("jpg"@) || extension == Some("jpeg"@) || extension == Some(
            "png"@,
        ) || extension == Some("gif"@) || extension == Some("webp"@) || extension == Some("avif"@)
            || extension == Some("bmp"@) {
            10int
        } else {
            0
        }),
{
    lemma_furniture(tag, url);
    lemma_content(tag, url);
    reveal_strlit("svg");
    reveal_strlit("jpg");
    reveal_strlit("jpeg");
    reveal_strlit("png");
    reveal_strlit("gif");
    reveal_strlit("webp");
    reveal_strlit("avif");
    reveal_strlit("bmp");
    assert("svg"@[0] == 's');
}

/// An image whose size is known gains 12 points where it is large; it loses 35 where a side is short
/// or the area small, or 25 where only one side is known and short.
pub proof fn law_size_points(w: int, h: int)
    requires
        w > 0,
        h > 0,
    ensures
        w >= 400 && h >= 220 ==> size_score(Some(w), Some(h)) == 12,
        w < 120 || h < 120 || w * h <= 35_000 ==> size_score(Some(w), Some(h)) == -35,
        w >= 120 && h >= 120 && w * h > 35_000 && (w < 400 || h < 220) ==> size_score(
            Some(w),
            Some(h),
        ) == 0,
        w < 120 ==> size_score(Some(w), None) == -25,
        w >= 120 ==> size_score(Some(w), None) == 0,
        h < 120 ==> size_score(None, Some(h)) == -25,
        h >= 120 ==> size_score(None, Some(h)) == 0,
        size_score(None, None) == 0,
{
    if w >= 400 && h >= 220 {
        assert(w * h >= 400 * 220) by (nonlinear_arith)
            requires
                w >= 400,
                h >= 220,
        ;
    }
}

proof fn lemma_digits_of_digits(s: Seq<char>)
    requires
        all_digits(s),
    ensures
        only_digits(s) == s,
    decreases s.len(),
{
    if s.len() > 0 {
        lemma_digits_of_digits(s.drop_last());
        assert(is_digit(s[s.len() - 1]));
        assert(s.drop_last().push(s.last()) =~= s);
    }
}

proof fn lemma_digits_before_unit(s: Seq<char>, unit: Seq<char>)
    requires
        all_digits(s),
        forall|i: int| 0 <= i < unit.len() ==> !is_digit(#[trigger] unit[i]),
    ensures
        only_digits(s + unit) == s,
    decreases unit.len(),
{
    if unit.len() == 0 {
        lemma_digits_of_digits(s);
        assert(s + unit =~= s);
    } else {
        assert((s + unit).last() == unit[unit.len() - 1]);
        assert((s + unit).drop_last() =~= s + unit.drop_last());
        lemma_digits_before_unit(s, unit.drop_last());
    }
}

/// A size is a positive number, with or without a unit behind it.
pub proof fn law_dimensions(n: int, unit: Seq<char>)
    requires
        0 <= n <= i32::MAX,
        forall|i: int| 0 <= i < unit.len() ==> !is_digit(#[trigger] unit[i]),
    ensures
        n > 0 ==> dimension(decimal(n) + unit) == Some(n),
        n == 0 ==> dimension(decimal(n) + unit) is None,
{
    law_decimal_digits(n);
    lemma_digits_before_unit(decimal(n), unit);
    law_decimal_round_trip(n, i32::MIN as int, i32::MAX as int);
}

/// Only the six properties for it make a meta tag name an image.
pub proof fn law_meta_properties(base: UrlParts, tag: Seq<char>)
    requires
        meta_candidate(base, tag) is Some,
    ensures
        ({
            let key = match attribute(tag, "property"@) {
                Some(v) => Some(lower(trim(v))),
                None => match attribute(tag, "name"@) {
                    Some(v) => Some(lower(trim(v))),
                    None => None,
                },
            };
            key == Some("og:image"@) || key == Some("og:image:url"@) || key == Some(
                "og:image:secure_url"@,
            ) || key == Some("twitter:image"@) || key == Some("twitter:image:src"@) || key == Some(
                "twitter:image:url"@,
            )
        }),
{
    reveal_strlit("og:image");
    reveal_strlit("og:image:url");
    reveal_strlit("og:image:secure_url");
    reveal_strlit("twitter:image");
    reveal_strlit("twitter:image:src");
    reveal_strlit("twitter:image:url");
}

/// What is done about the image of a link: one that is an image stands for itself, another page of
/// the web is fetched, and there is nothing for all else.
pub proof fn law_link_image_plans(
    plan: LinkImagePlan,
    trimmed: Seq<char>,
    parsed: Result<UrlParts, Seq<char>>,
)
    requires
        is_link_image_plan(plan, trimmed, parsed),
    ensures
        plan is Nothing <==> trimmed.len() == 0 || !(parsed matches Ok(u) && (u.scheme == "http"@
            || u.scheme == "https"@)),
        plan matches LinkImagePlan::Direct(address) ==> address@ == trimmed,
        plan matches LinkImagePlan::Fetch { address, base } ==> address@ == trimmed && parsed == Ok::<
            UrlParts,
            Seq<char>,
        >(base@),
        parsed matches Ok(u) ==> (plan is Direct ==> image_extension(path_extension(u.path))) && (
        plan is Fetch ==> !image_extension(path_extension(u.path))),
{
}

/// The preview of a link is headed by its host, and shows the image that it leads to, if it is one;
/// a text that is no address is described by itself.
pub proof fn law_link_previews(text: Seq<char>, u: UrlParts, fault: Seq<char>)
    requires
        text.len() > 0,
    ensures
        u.host matches Some(h) ==> preview(text, Ok(u)).title == h,
        u.host is None ==> preview(text, Ok(u)).title == "External link"@,
        image_extension(path_extension(u.path)) ==> preview(text, Ok(u)).image_url == text,
        !image_extension(path_extension(u.path)) ==> preview(text, Ok(u)).image_url.len() == 0,
        preview(text, Err(fault)).title == "External link"@,
        preview(text, Err(fault)).description == text,
        preview(text, Err(fault)).image_url.len() == 0,
{
}

/// A preview describes a link by its path without the slashes around it, and its query; by the first
/// 117 characters and dots where that is longer than 120.
pub proof fn law_link_descriptions(text: Seq<char>, u: UrlParts, path: Seq<char>)
    requires
        text.len() > 0,
        path.len() > 0,
        path[0] != '/',
        path.last() != '/',
        u.path == seq!['/'] + path,
    ensures
        ({
            let full = match u.query {
                Some(q) => path + "?"@ + q,
                None => path,
            };
            let d = preview(text, Ok(u)).description;
            &&& full.len() <= 120 ==> d == full
            &&& full.len() > 120 ==> d == full.take(117) + "..."@
        }),
{
    let k = CharClass::Only('/');
    lemma_run_end(u.path, k, 0);
    let a = run_end(u.path, k, 0);
    assert(u.path[0] == '/' && u.path[1] == path[0]);
    if a > 1 {
        assert(in_class(k, u.path[1]));
    }
    assert(a == 1);
    assert(u.path.subrange(1, u.path.len() as int) =~= path);
    lemma_run_start(path, k, path.len() as int);
    let b = run_start(path, k, path.len() as int);
    if b < path.len() {
        assert(in_class(k, path[path.len() - 1]));
    }
    assert(path.subrange(0, path.len() as int) =~= path);
}

} // verus!
