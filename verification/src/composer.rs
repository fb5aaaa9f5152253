//! Pasted text: image data URLs in it become attachments and leave the text.
use vstd::prelude::*;
use crate::state::AttachedFile;
use crate::types::PartInput;
use crate::text::{char_len_utf8, chars_of, nat_decimal, occurs_at, push_nat_decimal, push_str, string_of, utf8_len};
use crate::utils::{image_extension, image_extension_for_mime};

verus! {

/// A match of the image data URL pattern in a text.
pub struct DataUrlMatch {
    /// Byte offset of its start.
    pub start: usize,
    /// Byte offset just past its end.
    pub end: usize,
    /// The matched text.
    pub full: String,
    /// The image type, such as "image/png".
    pub mime: String,
    /// The base64 data.
    pub data: String,
}

/// A match as plain values: start, end, matched text, image type, data.
pub type MatchView = (int, int, Seq<char>, Seq<char>, Seq<char>);

/// The views of a list of matches.
pub open spec fn match_views(ms: Seq<DataUrlMatch>) -> Seq<MatchView> {
    ms.map_values(|m: DataUrlMatch| (m.start as int, m.end as int, m.full@, m.mime@, m.data@))
}

/// The image types a pasted data URL may have, in the order in which they are tried.
pub open spec fn image_types() -> Seq<Seq<char>> {
    seq!["png"@, "jpeg"@, "jpg"@, "gif"@, "webp"@, "tiff"@, "svg+xml"@]
}

/// Whether `c` may appear in the base64 data of a data URL: an ASCII letter or
/// digit, '+', '/' or '='.
pub open spec fn is_base64_char(c: char) -> bool {
    let u = c as u32;
    (65 <= u <= 90) || (97 <= u <= 122) || (48 <= u <= 57) || u == 43 || u == 47 || u == 61
}

/// What comes before the data of an image of type `t`: "data:image/", the type, ";base64,".
pub open spec fn url_header(t: Seq<char>) -> Seq<char> {
    "data:image/"@ + t + ";base64,"@
}

/// How many base64 characters follow one another from position `j` of `s` on.
pub open spec fn base64_run(s: Seq<char>, j: int) -> nat
    decreases s.len() - j,
{
    if 0 <= j < s.len() && is_base64_char(s[j]) {
        1 + base64_run(s, j + 1)
    } else {
        0
    }
}

/// The first image type, from position `k` of the list on, whose header starts
/// at position `i` of `s` and is followed by some data.
pub open spec fn url_type_from(s: Seq<char>, i: int, k: int) -> Option<int>
    decreases 7 - k,
{
    if k < 0 || k >= 7 {
        None
    } else if occurs_at(s, url_header(image_types()[k]), i) && base64_run(s, i + url_header(image_types()[k]).len()) > 0 {
        Some(k)
    } else {
        url_type_from(s, i, k + 1)
    }
}

/// The image data URL that starts at position `i` of `s`, if one does: where it
/// ends (after the longest run of data) and its image type.
pub open spec fn url_at(s: Seq<char>, i: int) -> Option<(int, Seq<char>)> {
    match url_type_from(s, i, 0) {
        Some(k) => {
            let d = i + url_header(image_types()[k]).len();
            Some((d + base64_run(s, d), image_types()[k]))
        },
        None => None,
    }
}

/// A data run never reaches past the end of the text.
pub proof fn lemma_base64_run_bound(s: Seq<char>, j: int)
    requires
        0 <= j,
    ensures
        j + base64_run(s, j) <= s.len() || base64_run(s, j) == 0,
    decreases s.len() - j,
{
    if 0 <= j < s.len() && is_base64_char(s[j]) {
        lemma_base64_run_bound(s, j + 1);
    }
}

/// The type found at a position is one of the list, and its header is there.
pub proof fn lemma_url_type_from(s: Seq<char>, i: int, k: int)
    ensures
        url_type_from(s, i, k) matches Some(t) ==> 0 <= t < 7 && occurs_at(s, url_header(image_types()[t]), i)
            && base64_run(s, i + url_header(image_types()[t]).len()) > 0,
    decreases 7 - k,
{
    if 0 <= k < 7 {
        lemma_url_type_from(s, i, k + 1);
    }
}

/// The image data URLs found scanning `s` from position `i` on: the leftmost
/// one, then those after its end, as (start, end, type) in characters.
pub open spec fn urls_from(s: Seq<char>, i: int) -> Seq<(int, int, Seq<char>)>
    decreases s.len() - i,
{
    if i < 0 || i >= s.len() {
        Seq::empty()
    } else {
        match url_at(s, i) {
            Some((e, t)) => {
                proof {
                    lemma_url_type_from(s, i, 0);
                    let k = url_type_from(s, i, 0).unwrap();
                    lemma_base64_run_bound(s, i + url_header(image_types()[k]).len());
                }
                seq![(i, e, t)] + urls_from(s, e)
            },
            None => urls_from(s, i + 1),
        }
    }
}

/// The successive non-overlapping matches of the pattern of pasted images in a
/// text, as the regex crate's `Regex::captures_iter` finds them: each is
/// "data:image/", one of the image types, ";base64," and the longest run of
/// base64 characters after it (at least one), the leftmost match first and each
/// next one searched for from the end of the one before. Each is given by its
/// byte offsets, the matched text, its type ("image/..."), and its data.
/// Opaque: `reveal(data_url_matches)` where its definition is needed.
#[verifier::opaque]
pub open spec fn data_url_matches(text: Seq<char>) -> Seq<MatchView> {
    urls_from(text, 0).map_values(|u: (int, int, Seq<char>)| (
        utf8_len(text.take(u.0)) as int,
        utf8_len(text.take(u.1)) as int,
        text.subrange(u.0, u.1),
        "image/"@ + u.2,
        text.subrange(u.0 + url_header(u.2).len(), u.1),
    ))
}

/// The data URLs found from position `i` lie in order inside the text, each
/// after `i`, each holding its header, none overlapping the next.
proof fn lemma_urls_placed(s: Seq<char>, i: int)
    requires
        0 <= i,
    ensures
        forall|k: int| 0 <= k < urls_from(s, i).len() ==> {
            let u = #[trigger] urls_from(s, i)[k];
            &&& i <= u.0
            &&& u.0 + url_header(u.2).len() < u.1 <= s.len()
        },
        forall|k: int| 0 <= k < urls_from(s, i).len() - 1 ==> (#[trigger] urls_from(s, i)[k]).1 <= urls_from(s, i)[k + 1].0,
    decreases s.len() - i,
{
    if i < s.len() {
        match url_at(s, i) {
            Some((e, t)) => {
                lemma_url_type_from(s, i, 0);
                let k = url_type_from(s, i, 0).unwrap();
                let d = i + url_header(image_types()[k]).len();
                lemma_base64_run_bound(s, d);
                assert(t == image_types()[k]);
                assert(e == d + base64_run(s, d));
                assert(base64_run(s, d) > 0);
                lemma_urls_placed(s, e);
                let rest = urls_from(s, e);
                let all = urls_from(s, i);
                assert(all == seq![(i, e, t)] + rest);
                assert forall|j: int| 0 <= j < all.len() implies {
                    let u = #[trigger] all[j];
                    &&& i <= u.0
                    &&& u.0 + url_header(u.2).len() < u.1 <= s.len()
                } by {
                    if j > 0 {
                        assert(all[j] == rest[j - 1]);
                    }
                }
                assert forall|j: int| 0 <= j < all.len() - 1 implies (#[trigger] all[j]).1 <= all[j + 1].0 by {
                    assert(all[j + 1] == rest[j]);
                    if j > 0 {
                        assert(all[j] == rest[j - 1]);
                    }
                }
            },
            None => {
                lemma_urls_placed(s, i + 1);
                assert(urls_from(s, i) == urls_from(s, i + 1));
            },
        }
    } else {
        assert(urls_from(s, i).len() == 0);
    }
}

/// Character position `k` is where byte offset `utf8_len(s.take(k))` falls.
proof fn lemma_char_pos_of(s: Seq<char>, k: int)
    requires
        0 <= k <= s.len(),
    ensures
        at_boundary(s, utf8_len(s.take(k)) as int),
        char_pos(s, utf8_len(s.take(k)) as int) == k,
{
    let b = utf8_len(s.take(k)) as int;
    assert(at_boundary(s, b));
    let w = char_pos(s, b);
    if w < k {
        lemma_bytes_grow(s, w, k);
    } else if k < w {
        lemma_bytes_grow(s, k, w);
    }
}

/// The matches of the pattern are well placed in the text.
proof fn lemma_matches_well_placed(text: Seq<char>)
    ensures
        matches_well_placed(text, data_url_matches(text)),
{
    reveal(data_url_matches);
    let us = urls_from(text, 0);
    let ms = data_url_matches(text);
    lemma_urls_placed(text, 0);
    assert(text.take(text.len() as int) =~= text);
    assert forall|k: int| 0 <= k < ms.len() implies {
        let m = #[trigger] ms[k];
        &&& 0 <= m.0 <= m.1 <= utf8_len(text)
        &&& at_boundary(text, m.0) && at_boundary(text, m.1)
        &&& m.2 == byte_slice(text, m.0, m.1)
    } by {
        let u = us[k];
        lemma_bytes_grow(text, u.0, u.1);
        lemma_bytes_grow(text, u.1, text.len() as int);
        lemma_char_pos_of(text, u.0);
        lemma_char_pos_of(text, u.1);
    }
    assert forall|k: int| 0 <= k < ms.len() - 1 implies (#[trigger] ms[k]).1 <= ms[k + 1].0 by {
        let u = us[k];
        let v = us[k + 1];
        assert(u.1 <= v.0);
        assert(v.0 + url_header(v.2).len() < v.1 <= text.len());
        lemma_bytes_grow(text, u.1, v.0);
    }
}

/// The pattern of pasted images, in the regex crate's syntax; group 1 is the
/// type and group 2 the data.
pub open spec fn image_url_pattern() -> Seq<char> {
    "data:(image/(?:png|jpeg|jpg|gif|webp|tiff|svg\\+xml));base64,([A-Za-z0-9+/=]+)"@
}

/// The pattern of pasted images.
fn image_data_url_pattern() -> (p: &'static str)
    ensures
        p@ == image_url_pattern(),
{
    "data:(image/(?:png|jpeg|jpg|gif|webp|tiff|svg\\+xml));base64,([A-Za-z0-9+/=]+)"
}

/// Whether byte offset `b` of the UTF-8 encoding of `s` lies between two
/// characters.
pub open spec fn at_boundary(s: Seq<char>, b: int) -> bool {
    exists|k: int| 0 <= k <= s.len() && utf8_len(#[trigger] s.take(k)) == b
}

/// The number of characters before byte offset `b` of `s`.
pub open spec fn char_pos(s: Seq<char>, b: int) -> int {
    choose|k: int| 0 <= k <= s.len() && utf8_len(#[trigger] s.take(k)) == b
}

/// The characters between byte offsets `a` and `b` of `s`.
pub open spec fn byte_slice(s: Seq<char>, a: int, b: int) -> Seq<char> {
    s.subrange(char_pos(s, a), char_pos(s, b))
}

/// What is known of the matches of a text: each lies between character
/// boundaries with its start before its end, each matched text is the text
/// between them, and each starts where the one before ended or later.
pub open spec fn matches_well_placed(text: Seq<char>, ms: Seq<MatchView>) -> bool {
    &&& forall|k: int| 0 <= k < ms.len() ==> {
        let m = #[trigger] ms[k];
        &&& 0 <= m.0 <= m.1 <= utf8_len(text)
        &&& at_boundary(text, m.0) && at_boundary(text, m.1)
        &&& m.2 == byte_slice(text, m.0, m.1)
    }
    &&& forall|k: int| 0 <= k < ms.len() - 1 ==> (#[trigger] ms[k]).1 <= ms[k + 1].0
}

/// The regex crate's `Regex::new` on the pattern of pasted images, then
/// `Regex::captures_iter` on a text: the matches, with their byte offsets,
/// matched text, type (group 1) and data (group 2). The contract states them
/// as `data_url_matches` describes the pattern's leftmost-first, greedy,
/// non-overlapping matches. The pattern is valid, so `Regex::new` succeeds.
#[verifier::external_body]
fn find_data_urls(pattern: &str, text: &str) -> (r: Vec<DataUrlMatch>)
    requires
        pattern@ == image_url_pattern(),
    ensures
        match_views(r@) == data_url_matches(text@),
{
    let re = regex::Regex::new(pattern).unwrap();
    re.captures_iter(text).map(|c| {
        let m = c.get(0).unwrap();
        DataUrlMatch { start: m.start(), end: m.end(), full: m.as_str().to_string(), mime: c[1].to_string(), data: c[2].to_string() }
    }).collect()
}

/// The image data URLs in a text, in order.
pub fn data_url_captures(text: &str) -> (r: Vec<DataUrlMatch>)
    ensures
        match_views(r@) == data_url_matches(text@),
        matches_well_placed(text@, match_views(r@)),
{
    let r = find_data_urls(image_data_url_pattern(), text);
    proof {
        lemma_matches_well_placed(text@);
    }
    r
}

/// Where the last of the matches ends (0 without matches).
pub open spec fn last_end(ms: Seq<MatchView>) -> int {
    if ms.len() == 0 { 0 } else { ms.last().1 }
}

/// The text before the end of the last match, without the matches.
pub open spec fn text_between(text: Seq<char>, ms: Seq<MatchView>) -> Seq<char>
    decreases ms.len(),
{
    if ms.len() == 0 {
        Seq::empty()
    } else {
        text_between(text, ms.drop_last()) + byte_slice(text, last_end(ms.drop_last()), ms.last().0)
    }
}

/// The text left when the matches are taken out.
pub open spec fn text_without(text: Seq<char>, ms: Seq<MatchView>) -> Seq<char> {
    text_between(text, ms) + byte_slice(text, last_end(ms), utf8_len(text) as int)
}

/// The attachment made of the `k`-th match: "attachment_STAMP_K.EXT".
pub open spec fn attachment_name(stamp: u64, k: nat, mime: Seq<char>) -> Seq<char> {
    "attachment_"@ + nat_decimal(stamp as nat) + "_"@ + nat_decimal(k) + "."@ + image_extension(mime)
}

/// Whether `files` are the attachments made of the matches, in order.
pub open spec fn attachments_of(files: Seq<AttachedFile>, ms: Seq<MatchView>, stamp: u64) -> bool {
    &&& files.len() == ms.len()
    &&& forall|k: int| 0 <= k < ms.len() ==> {
        let f = #[trigger] files[k];
        &&& f.filename@ == attachment_name(stamp, k as nat, ms[k].3)
        &&& f.mime_type@ == ms[k].3
        &&& f.data_url@ == ms[k].2
        &&& f.raw_text is None
    }
}

proof fn lemma_bytes_grow(s: Seq<char>, k1: int, k2: int)
    requires
        0 <= k1 <= k2 <= s.len(),
    ensures
        utf8_len(s.take(k1)) <= utf8_len(s.take(k2)),
        k1 < k2 ==> utf8_len(s.take(k1)) < utf8_len(s.take(k2)),
    decreases k2 - k1,
{
    if k1 < k2 {
        assert(s.take(k2).drop_last() =~= s.take(k2 - 1));
        lemma_bytes_grow(s, k1, k2 - 1);
    }
}

/// The number of characters before byte offset `b`, which lies between two
/// characters.
fn char_index(s: &Vec<char>, b: usize) -> (k: usize)
    requires
        at_boundary(s@, b as int),
    ensures
        k as int == char_pos(s@, b as int),
        k <= s.len(),
{
    let ghost w = char_pos(s@, b as int);
    let mut total: usize = 0;
    let mut k: usize = 0;
    proof {
        assert(s@.take(0) =~= Seq::<char>::empty());
    }
    while k < s.len() && total < b
        invariant
            k <= s.len(),
            total as int == utf8_len(s@.take(k as int)),
            0 <= w <= s.len(),
            utf8_len(s@.take(w)) == b,
            k <= w,
        decreases s.len() - k,
    {
        proof {
            assert(s@.take(k + 1).drop_last() =~= s@.take(k as int));
            if k == w {
                assert(false);
            }
            lemma_bytes_grow(s@, k + 1, w);
        }
        total = total + char_len_utf8(s[k]) as usize;
        k += 1;
    }
    proof {
        if k < w {
            lemma_bytes_grow(s@, k as int, w);
        }
    }
    k
}

/// The characters of `s` from `a` up to `b`.
fn push_range(out: &mut Vec<char>, s: &Vec<char>, a: usize, b: usize)
    requires
        a <= b <= s.len(),
    ensures
        final(out)@ == old(out)@ + s@.subrange(a as int, b as int),
{
    let ghost o0 = out@;
    let mut j: usize = a;
    while j < b
        invariant
            a <= j <= b <= s.len(),
            out@ == o0 + s@.subrange(a as int, j as int),
        decreases b - j,
    {
        out.push(s[j]);
        proof {
            assert(out@ =~= o0 + s@.subrange(a as int, j + 1));
        }
        j += 1;
    }
}

/// The text from byte offset `a` to byte offset `b` of `s`, both between
/// characters and `a` first, appended to `out`.
fn push_byte_slice(out: &mut Vec<char>, s: &Vec<char>, a: usize, b: usize)
    requires
        a <= b,
        at_boundary(s@, a as int),
        at_boundary(s@, b as int),
    ensures
        final(out)@ == old(out)@ + byte_slice(s@, a as int, b as int),
{
    let x = char_index(s, a);
    let y = char_index(s, b);
    proof {
        if y < x {
            lemma_bytes_grow(s@, y as int, x as int);
        }
    }
    push_range(out, s, x, y);
}

/// The attachment made of the `k`-th match.
fn attachment_for(m: &DataUrlMatch, k: usize, stamp: u64) -> (f: AttachedFile)
    ensures
        f.filename@ == attachment_name(stamp, k as nat, m.mime@),
        f.mime_type@ == m.mime@,
        f.data_url@ == m.full@,
        f.raw_text is None,
{
    let mut name: Vec<char> = Vec::new();
    push_str(&mut name, "attachment_");
    push_nat_decimal(stamp, &mut name);
    push_str(&mut name, "_");
    push_nat_decimal(k as u64, &mut name);
    push_str(&mut name, ".");
    push_str(&mut name, image_extension_for_mime(m.mime.as_str()));
    AttachedFile { filename: string_of(name.as_slice()), mime_type: m.mime.clone(), data_url: m.full.clone(), raw_text: None }
}

/// The end of the text is a boundary, and its characters all come before it.
proof fn lemma_text_end(s: Seq<char>)
    ensures
        at_boundary(s, utf8_len(s) as int),
        char_pos(s, utf8_len(s) as int) == s.len(),
{
    assert(s.take(s.len() as int) =~= s);
    let w = char_pos(s, utf8_len(s) as int);
    if w < s.len() {
        lemma_bytes_grow(s, w, s.len() as int);
    }
}

/// Takes the image data URLs out of pasted text: gives back the text left and
/// an attachment for each of them, named after `stamp` (the time, in
/// milliseconds) and its position.
#[verifier::rlimit(100)]
#[verifier::spinoff_prover]
pub fn process_pasted_content(text: &str, stamp: u64) -> (r: (String, Vec<AttachedFile>))
    ensures
        r.0@ == text_without(text@, data_url_matches(text@)),
        attachments_of(r.1@, data_url_matches(text@), stamp),
{
    let ms = data_url_captures(text);
    let ghost mv = match_views(ms@);
    let s = chars_of(text);
    let mut out: Vec<char> = Vec::new();
    let mut files: Vec<AttachedFile> = Vec::new();
    let mut last: usize = 0;
    let mut k: usize = 0;
    proof {
        assert(mv.take(0) =~= Seq::<MatchView>::empty());
        assert(s@.take(0) =~= Seq::<char>::empty());
        assert(at_boundary(s@, 0));
    }
    while k < ms.len()
        invariant
            k <= ms.len(),
            s@ == text@,
            mv == match_views(ms@),
            mv == data_url_matches(text@),
            matches_well_placed(text@, mv),
            last as int == last_end(mv.take(k as int)),
            at_boundary(s@, last as int),
            k > 0 ==> last as int == mv[k - 1].1,
            out@ == text_between(text@, mv.take(k as int)),
            files@.len() == k,
            forall|j: int| 0 <= j < k ==> {
                let f = #[trigger] files@[j];
                &&& f.filename@ == attachment_name(stamp, j as nat, mv[j].3)
                &&& f.mime_type@ == mv[j].3
                &&& f.data_url@ == mv[j].2
                &&& f.raw_text is None
            },
        decreases ms.len() - k,
    {
        let m = &ms[k];
        proof {
            assert(mv[k as int] == (m.start as int, m.end as int, m.full@, m.mime@, m.data@));
            if k > 0 {
                assert(mv[k - 1].1 <= mv[k as int].0);
            }
            assert(mv.take(k + 1).drop_last() =~= mv.take(k as int));
            assert(mv.take(k + 1).last() == mv[k as int]);
        }
        push_byte_slice(&mut out, &s, last, m.start);
        let f = attachment_for(m, k, stamp);
        files.push(f);
        last = m.end;
        k += 1;
    }
    proof {
        assert(mv.take(ms.len() as int) =~= mv);
        lemma_text_end(s@);
        if mv.len() > 0 {
            assert(mv[mv.len() - 1].1 <= utf8_len(text@));
        }
    }
    let x = char_index(&s, last);
    proof {
        let w = char_pos(s@, last as int);
        lemma_bytes_grow(s@, w, s@.len() as int);
    }
    push_range(&mut out, &s, x, s.len());
    (string_of(out.as_slice()), files)
}

/// The part a message carries for an attachment: its text for a text
/// attachment, else a file part with its type, name and data URL.
pub open spec fn attachment_part(f: AttachedFile, p: PartInput) -> bool {
    match f.raw_text {
        Some(t) => p matches PartInput::Text { id, text, synthetic, ignored, time, metadata } && id is None
            && text@ == t@ && synthetic is None && ignored is None && time is None && metadata is None,
        None => p matches PartInput::File { id, mime, filename, url, source } && id is None && mime@
            == f.mime_type@ && (filename matches Some(n) && n@ == f.filename@) && url@ == f.data_url@
            && source is None,
    }
}

/// The parts a message carries for its attachments, in order.
pub fn attachment_parts(files: &Vec<AttachedFile>) -> (r: Vec<PartInput>)
    ensures
        r@.len() == files@.len(),
        forall|k: int| 0 <= k < files@.len() ==> attachment_part(files@[k], #[trigger] r@[k]),
{
    let mut parts: Vec<PartInput> = Vec::new();
    let mut k: usize = 0;
    while k < files.len()
        invariant
            k <= files.len(),
            parts@.len() == k,
            forall|j: int| 0 <= j < k ==> attachment_part(files@[j], #[trigger] parts@[j]),
        decreases files.len() - k,
    {
        let f = &files[k];
        let p = match &f.raw_text {
            Some(t) => PartInput::text(t.clone()),
            None => PartInput::file_with_filename(f.mime_type.clone(), f.filename.clone(), f.data_url.clone()),
        };
        parts.push(p);
        k += 1;
    }
    parts
}

} // verus!
