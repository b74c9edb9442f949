//! Still-image video rendering support: choosing the cover image among the
//! unpacked files, and the file naming the renderer works with.
//!
//! The renderer itself (an external encoder) runs outside the library; the
//! selection and naming rules are verified here.

use vstd::prelude::*;

use crate::rx::{regex_compiles, regex_match, Pattern};
use crate::util;

verus! {

// -------------------------------------------------------------------------
// Lexicographic order on strings and sorting.
// -------------------------------------------------------------------------
/// Lexicographic order on character sequences, by scalar value.
pub open spec fn spec_str_le(a: Seq<char>, b: Seq<char>) -> bool
    decreases a.len(),
{
    if a.len() == 0 {
        true
    } else if b.len() == 0 {
        false
    } else if a[0] == b[0] {
        spec_str_le(a.drop_first(), b.drop_first())
    } else {
        (a[0] as u32) < (b[0] as u32)
    }
}

proof fn lemma_str_le_skip(a: Seq<char>, b: Seq<char>, i: int)
    requires
        0 <= i <= a.len(),
        i <= b.len(),
        forall|j: int| 0 <= j < i ==> a[j] == b[j],
    ensures
        spec_str_le(a, b) == spec_str_le(a.skip(i), b.skip(i)),
    decreases i,
{
    if i > 0 {
        lemma_str_le_skip(a.drop_first(), b.drop_first(), i - 1);
        assert(a.skip(i) =~= a.drop_first().skip(i - 1));
        assert(b.skip(i) =~= b.drop_first().skip(i - 1));
        assert(forall|j: int| 0 <= j < i - 1 ==> a.drop_first()[j] == b.drop_first()[j]);
    } else {
        assert(a.skip(0) =~= a);
        assert(b.skip(0) =~= b);
    }
}

/// Compares two strings lexicographically by character.
pub fn str_le(a: &String, b: &String) -> (r: bool)
    ensures
        r == spec_str_le(a@, b@),
{
    let na = a.as_str().unicode_len();
    let nb = b.as_str().unicode_len();
    let mut i: usize = 0;
    while i < na && i < nb
        invariant
            i <= na,
            i <= nb,
            na == a@.len(),
            nb == b@.len(),
            forall|j: int| 0 <= j < i ==> a@[j] == b@[j],
        decreases na - i,
    {
        let ca = a.as_str().get_char(i);
        let cb = b.as_str().get_char(i);
        if ca != cb {
            proof {
                lemma_str_le_skip(a@, b@, i as int);
                assert(a@.skip(i as int)[0] == a@[i as int]);
                assert(b@.skip(i as int)[0] == b@[i as int]);
            }
            return (ca as u32) < (cb as u32);
        }
        i = i + 1;
    }
    proof {
        lemma_str_le_skip(a@, b@, i as int);
        if i >= na {
            assert(a@.skip(i as int).len() == 0);
        } else {
            assert(b@.skip(i as int).len() == 0);
            assert(a@.skip(i as int).len() > 0);
        }
    }
    na <= nb
}

/// Ordered insertion from the back.
pub open spec fn spec_insert_str(s: Seq<Seq<char>>, x: Seq<char>) -> Seq<Seq<char>>
    decreases s.len(),
{
    if s.len() == 0 {
        seq![x]
    } else if spec_str_le(s.last(), x) {
        s.push(x)
    } else {
        spec_insert_str(s.drop_last(), x).push(s.last())
    }
}

/// Insertion sort of a string sequence.
pub open spec fn spec_sort_strs(s: Seq<Seq<char>>) -> Seq<Seq<char>>
    decreases s.len(),
{
    if s.len() == 0 {
        Seq::empty()
    } else {
        spec_insert_str(spec_sort_strs(s.drop_last()), s.last())
    }
}

proof fn lemma_insert_str_at(s: Seq<Seq<char>>, x: Seq<char>, j: int)
    requires
        0 <= j <= s.len(),
        forall|k: int| j <= k < s.len() ==> !spec_str_le(#[trigger] s[k], x),
        j > 0 ==> spec_str_le(s[j - 1], x),
    ensures
        spec_insert_str(s, x) == s.take(j).push(x).add(s.skip(j)),
    decreases s.len(),
{
    if j == s.len() {
        if s.len() == 0 {
            assert(spec_insert_str(s, x) =~= s.take(j).push(x).add(s.skip(j)));
        } else {
            assert(spec_str_le(s.last(), x));
            assert(s.take(j) =~= s);
            assert(spec_insert_str(s, x) =~= s.take(j).push(x).add(s.skip(j)));
        }
    } else {
        assert(!spec_str_le(s[s.len() - 1], x));
        lemma_insert_str_at(s.drop_last(), x, j);
        assert(s.drop_last().take(j) =~= s.take(j));
        assert(spec_insert_str(s, x) =~= s.take(j).push(x).add(s.skip(j)));
    }
}

/// Sorts the strings lexicographically (insertion sort).
pub fn sort_strings(v: &Vec<String>) -> (r: Vec<String>)
    ensures
        r.deep_view() == spec_sort_strs(v.deep_view()),
{
    let ghost dv = v.deep_view();
    let mut out: Vec<String> = Vec::new();
    let mut i: usize = 0;
    proof {
        assert(dv.take(0) =~= Seq::<Seq<char>>::empty());
        assert(out.deep_view() =~= spec_sort_strs(dv.take(0)));
    }
    while i < v.len()
        invariant
            i <= v.len(),
            dv == v.deep_view(),
            dv.len() == v.len(),
            forall|j: int| 0 <= j < v.len() ==> dv[j] == v@[j]@,
            out.deep_view() == spec_sort_strs(dv.take(i as int)),
        decreases v.len() - i,
    {
        let x = v[i].clone();
        let ghost before = out.deep_view();
        let mut j: usize = out.len();
        while j > 0 && !str_le_idx(&out, j - 1, &x)
            invariant
                j <= out.len(),
                out.deep_view() == before,
                x@ == dv[i as int],
                forall|k: int| j <= k < out.len() ==> !spec_str_le(#[trigger] before[k], x@),
            decreases j,
        {
            j = j - 1;
        }
        out.insert(j, x);
        proof {
            lemma_insert_str_at(before, dv[i as int], j as int);
            assert(out.deep_view() =~= before.take(j as int).push(dv[i as int]).add(
                before.skip(j as int),
            ));
            assert(dv.take(i + 1).drop_last() =~= dv.take(i as int));
            assert(spec_sort_strs(dv.take(i + 1)) == spec_insert_str(
                spec_sort_strs(dv.take(i as int)),
                dv[i as int],
            ));
        }
        i = i + 1;
    }
    proof {
        assert(dv.take(v.len() as int) =~= dv);
    }
    out
}

/// Compares one element of a vector against a string.
fn str_le_idx(v: &Vec<String>, i: usize, x: &String) -> (r: bool)
    requires
        i < v.len(),
    ensures
        r == spec_str_le(v.deep_view()[i as int], x@),
{
    str_le(&v[i], x)
}

// -------------------------------------------------------------------------
// Cover selection.
// -------------------------------------------------------------------------
/// The cover-image heuristics, most preferred first; the empty pattern
/// matches anything, so any image can serve as a last resort.
pub open spec fn cover_pattern_texts() -> Seq<Seq<char>> {
    seq![
        "(?i)^00.*Image[ ]?1"@,
        "(?i)^00"@,
        "(?i)^cover[.]...$"@,
        "(?i)front[.]...$"@,
        "(?i)image 1"@,
        "(?i)cover"@,
        "(?i)front"@,
        "(?i)^folder[.]jpg$"@,
        ""@,
    ]
}

/// Whether `suffix` ends `s`.
pub open spec fn spec_ends_with(s: Seq<char>, suffix: Seq<char>) -> bool {
    suffix.len() <= s.len() && s.subrange(s.len() - suffix.len(), s.len() as int) == suffix
}

/// Whether a file name names an image usable as a cover.
pub open spec fn spec_is_image(s: Seq<char>) -> bool {
    spec_ends_with(s, ".png"@) || spec_ends_with(s, ".jpg"@)
}

/// Whether the string ends with the given suffix.
pub fn ends_with(s: &str, suffix: &str) -> (r: bool)
    ensures
        r == spec_ends_with(s@, suffix@),
{
    let n = s.unicode_len();
    let m = suffix.unicode_len();
    if n < m {
        false
    } else {
        let tail = s.substring_char(n - m, n).to_owned();
        let suf = suffix.to_owned();
        let r = tail == suf;
        proof {
            if s@.subrange(s@.len() - suffix@.len(), s@.len() as int) == suffix@ {
                assert(r);
            }
        }
        r
    }
}

/// The image files among the names, in order.
pub open spec fn spec_images(files: Seq<Seq<char>>) -> Seq<Seq<char>>
    decreases files.len(),
{
    if files.len() == 0 {
        Seq::empty()
    } else if spec_is_image(files[0]) {
        seq![files[0]].add(spec_images(files.drop_first()))
    } else {
        spec_images(files.drop_first())
    }
}

proof fn lemma_images_take_step(files: Seq<Seq<char>>, i: int)
    requires
        0 <= i < files.len(),
    ensures
        spec_images(files.take(i + 1)) == if spec_is_image(files[i]) {
            spec_images(files.take(i)).push(files[i])
        } else {
            spec_images(files.take(i))
        },
    decreases i,
{
    if i == 0 {
        assert(files.take(0) =~= Seq::<Seq<char>>::empty());
        assert(files.take(1) =~= seq![files[0]]);
        assert(seq![files[0]].drop_first() =~= Seq::<Seq<char>>::empty());
        if spec_is_image(files[0]) {
            assert(spec_images(files.take(1)) =~= spec_images(files.take(0)).push(files[0]));
        }
    } else {
        lemma_images_take_step(files.drop_first(), i - 1);
        assert(files.take(i + 1).drop_first() =~= files.drop_first().take(i));
        assert(files.take(i).drop_first() =~= files.drop_first().take(i - 1));
        assert(files.take(i + 1)[0] == files[0]);
        assert(files.take(i)[0] == files[0]);
        assert(files.drop_first()[i - 1] == files[i]);
        if spec_is_image(files[0]) {
            if spec_is_image(files[i]) {
                assert(spec_images(files.take(i + 1)) =~= spec_images(files.take(i)).push(
                    files[i],
                ));
            }
        }
    }
}

/// The image files among the names.
pub fn filter_images(files: &Vec<String>) -> (r: Vec<String>)
    ensures
        r.deep_view() == spec_images(files.deep_view()),
{
    let ghost dv = files.deep_view();
    let mut out: Vec<String> = Vec::new();
    let mut i: usize = 0;
    proof {
        assert(dv.take(0) =~= Seq::<Seq<char>>::empty());
        assert(out.deep_view() =~= spec_images(dv.take(0)));
    }
    while i < files.len()
        invariant
            i <= files.len(),
            dv == files.deep_view(),
            dv.len() == files.len(),
            forall|j: int| 0 <= j < files.len() ==> dv[j] == files@[j]@,
            out.deep_view() == spec_images(dv.take(i as int)),
        decreases files.len() - i,
    {
        let keep = ends_with(files[i].as_str(), ".png") || ends_with(files[i].as_str(), ".jpg");
        if keep {
            out.push(files[i].clone());
        }
        proof {
            lemma_images_take_step(dv, i as int);
            if keep {
                assert(out.deep_view() =~= spec_images(dv.take(i as int)).push(dv[i as int]));
            }
        }
        i = i + 1;
    }
    proof {
        assert(dv.take(files.len() as int) =~= dv);
    }
    out
}

/// The first file the pattern matches.
pub open spec fn first_match_file(p: Seq<char>, files: Seq<Seq<char>>) -> Option<Seq<char>>
    decreases files.len(),
{
    if files.len() == 0 {
        Option::None
    } else if regex_match(p, files[0]) {
        Option::Some(files[0])
    } else {
        first_match_file(p, files.drop_first())
    }
}

/// The file chosen by the first pattern that matches any file.
pub open spec fn spec_pick_cover(pats: Seq<Seq<char>>, files: Seq<Seq<char>>) -> Option<Seq<char>>
    decreases pats.len(),
{
    if pats.len() == 0 {
        Option::None
    } else if first_match_file(pats[0], files) is Some {
        first_match_file(pats[0], files)
    } else {
        spec_pick_cover(pats.drop_first(), files)
    }
}

proof fn lemma_first_match_file_at(p: Seq<char>, files: Seq<Seq<char>>, i: int)
    requires
        0 <= i < files.len(),
        regex_match(p, files[i]),
        forall|j: int| 0 <= j < i ==> !regex_match(p, files[j]),
    ensures
        first_match_file(p, files) == Option::Some(files[i]),
    decreases i,
{
    if i > 0 {
        lemma_first_match_file_at(p, files.drop_first(), i - 1);
    }
}

proof fn lemma_first_match_file_none(p: Seq<char>, files: Seq<Seq<char>>)
    requires
        forall|j: int| 0 <= j < files.len() ==> !regex_match(p, files[j]),
    ensures
        first_match_file(p, files) is None,
    decreases files.len(),
{
    if files.len() > 0 {
        lemma_first_match_file_none(p, files.drop_first());
    }
}

proof fn lemma_pick_cover_at(pats: Seq<Seq<char>>, files: Seq<Seq<char>>, i: int)
    requires
        0 <= i < pats.len(),
        first_match_file(pats[i], files) is Some,
        forall|j: int| 0 <= j < i ==> first_match_file(#[trigger] pats[j], files) is None,
    ensures
        spec_pick_cover(pats, files) == first_match_file(pats[i], files),
    decreases i,
{
    if i > 0 {
        lemma_pick_cover_at(pats.drop_first(), files, i - 1);
    }
}

proof fn lemma_pick_cover_none(pats: Seq<Seq<char>>, files: Seq<Seq<char>>)
    requires
        forall|j: int| 0 <= j < pats.len() ==> first_match_file(#[trigger] pats[j], files) is None,
    ensures
        spec_pick_cover(pats, files) is None,
    decreases pats.len(),
{
    if pats.len() > 0 {
        lemma_pick_cover_none(pats.drop_first(), files);
    }
}

/// Picks the file chosen by the first pattern that matches any file: the
/// result is `Some` exactly when some pattern matches some file.
pub fn pick_cover(patterns: &Vec<Pattern>, files: &Vec<String>) -> (r: Option<String>)
    ensures
        crate::model::opt_view(r) == spec_pick_cover(
            patterns@.map_values(|p: Pattern| p.src_spec()),
            files.deep_view(),
        ),
{
    let ghost pv = patterns@.map_values(|p: Pattern| p.src_spec());
    let ghost fv = files.deep_view();
    let mut i: usize = 0;
    while i < patterns.len()
        invariant
            i <= patterns.len(),
            pv == patterns@.map_values(|p: Pattern| p.src_spec()),
            fv == files.deep_view(),
            pv.len() == patterns.len(),
            fv.len() == files.len(),
            forall|j: int| 0 <= j < files.len() ==> fv[j] == files@[j]@,
            forall|j: int| 0 <= j < i ==> first_match_file(#[trigger] pv[j], fv) is None,
        decreases patterns.len() - i,
    {
        let mut j: usize = 0;
        while j < files.len()
            invariant
                i < patterns.len(),
                j <= files.len(),
                pv == patterns@.map_values(|p: Pattern| p.src_spec()),
                fv == files.deep_view(),
                fv.len() == files.len(),
                pv.len() == patterns.len(),
                forall|k: int| 0 <= k < files.len() ==> fv[k] == files@[k]@,
                forall|k: int| 0 <= k < i ==> first_match_file(#[trigger] pv[k], fv) is None,
                forall|k: int| 0 <= k < j ==> !regex_match(pv[i as int], fv[k]),
            decreases files.len() - j,
        {
            if patterns[i].is_match(files[j].as_str()) {
                proof {
                    lemma_first_match_file_at(pv[i as int], fv, j as int);
                    lemma_pick_cover_at(pv, fv, i as int);
                }
                return Option::Some(files[j].clone());
            }
            j = j + 1;
        }
        proof {
            lemma_first_match_file_none(pv[i as int], fv);
        }
        i = i + 1;
    }
    proof {
        lemma_pick_cover_none(pv, fv);
    }
    Option::None
}

/// Whether every cover heuristic compiles (they are fixed, valid patterns;
/// the predicate keeps the contract honest about the outside decision).
pub open spec fn cover_patterns_compile() -> bool {
    forall|i: int|
        0 <= i < cover_pattern_texts().len() ==> regex_compiles(
            #[trigger] cover_pattern_texts()[i],
        )
}

/// Compiles the cover heuristics: succeeds exactly when every one compiles.
fn compile_cover_patterns() -> (r: Result<Vec<Pattern>, util::Error>)
    ensures
        r is Ok <==> cover_patterns_compile(),
        r matches Ok(v) ==> v@.map_values(|p: Pattern| p.src_spec()) == cover_pattern_texts(),
{
    let texts: [&str; 9] = [
        "(?i)^00.*Image[ ]?1",
        "(?i)^00",
        "(?i)^cover[.]...$",
        "(?i)front[.]...$",
        "(?i)image 1",
        "(?i)cover",
        "(?i)front",
        "(?i)^folder[.]jpg$",
        "",
    ];
    let mut out: Vec<Pattern> = Vec::new();
    let mut i: usize = 0;
    while i < 9
        invariant
            i <= 9,
            out.len() == i,
            forall|j: int|
                0 <= j < i ==> out@.map_values(|p: Pattern| p.src_spec())[j]
                    == cover_pattern_texts()[j],
            forall|j: int| 0 <= j < i ==> regex_compiles(#[trigger] cover_pattern_texts()[j]),
            texts@.len() == 9,
            forall|j: int| 0 <= j < 9 ==> texts@[j]@ == cover_pattern_texts()[j],
        decreases 9 - i,
    {
        match Pattern::compile(texts[i]) {
            Ok(p) => out.push(p),
            Err(e) => {
                proof {
                    assert(!regex_compiles(cover_pattern_texts()[i as int]));
                }
                return Err(util::Error::new(e.as_str()));
            },
        }
        i = i + 1;
    }
    proof {
        assert(out@.map_values(|p: Pattern| p.src_spec()) =~= cover_pattern_texts());
    }
    Ok(out)
}

/// Chooses the cover image among the directory's file names: the names are
/// sorted, non-image files dropped, and the heuristics tried most preferred
/// first; among equally ranked images the lexicographically first wins.
pub fn find_cover_vec(fnames: Vec<String>) -> (r: Result<String, util::Error>)
    ensures
        r matches Ok(f) ==> Option::Some(f@) == spec_pick_cover(
            cover_pattern_texts(),
            spec_images(spec_sort_strs(fnames.deep_view())),
        ),
        cover_patterns_compile() ==> (r is Ok <==> spec_pick_cover(
            cover_pattern_texts(),
            spec_images(spec_sort_strs(fnames.deep_view())),
        ) is Some),
        cover_patterns_compile() ==> (r matches Err(e) ==> e.msg_spec()
            == "No cover image found"@ && !e.retryable_spec()),
{
    let patterns = match compile_cover_patterns() {
        Ok(p) => p,
        Err(e) => {
            return Err(e);
        },
    };
    let sorted = sort_strings(&fnames);
    let images = filter_images(&sorted);
    match pick_cover(&patterns, &images) {
        Option::Some(f) => Ok(f),
        Option::None => Err(util::Error::new("No cover image found")),
    }
}

// -------------------------------------------------------------------------
// Renderer file naming.
// -------------------------------------------------------------------------
/// Index of the last '/' in the path, or -1.
pub open spec fn last_slash(s: Seq<char>) -> int
    decreases s.len(),
{
    if s.len() == 0 {
        -1
    } else if s.last() == '/' {
        s.len() - 1
    } else {
        last_slash(s.drop_last())
    }
}

/// The path without its trailing '/' characters.
pub open spec fn strip_trailing_slashes(s: Seq<char>) -> Seq<char>
    decreases s.len(),
{
    if s.len() > 0 && s.last() == '/' {
        strip_trailing_slashes(s.drop_last())
    } else {
        s
    }
}

/// The renderer writes to a temporary name first: "TEMP " before the final
/// path component, in the same directory.  Trailing slashes are ignored, as
/// a path's file name ignores them; a path whose final component is absent
/// or ".." has no file name and is refused.
pub open spec fn spec_temp_video(s: Seq<char>) -> Option<Seq<char>> {
    let t = strip_trailing_slashes(s);
    let cut = last_slash(t) + 1;
    let name = t.skip(cut);
    if name.len() == 0 || name == ".."@ {
        Option::None
    } else {
        Option::Some(t.take(cut).add("TEMP "@.add(name)))
    }
}

proof fn lemma_strip_trailing_slashes_at(s: Seq<char>, end: int)
    requires
        0 <= end <= s.len(),
        forall|j: int| end <= j < s.len() ==> s[j] == '/',
        end > 0 ==> s[end - 1] != '/',
    ensures
        strip_trailing_slashes(s) == s.take(end),
    decreases s.len(),
{
    if end == s.len() {
        assert(s.take(end) =~= s);
    } else {
        assert(s.last() == '/');
        lemma_strip_trailing_slashes_at(s.drop_last(), end);
        assert(s.drop_last().take(end) =~= s.take(end));
    }
}

proof fn lemma_last_slash_props(s: Seq<char>)
    ensures
        -1 <= last_slash(s) < s.len(),
        last_slash(s) >= 0 ==> s[last_slash(s)] == '/',
        forall|j: int| last_slash(s) < j < s.len() ==> s[j] != '/',
    decreases s.len(),
{
    if s.len() > 0 && s.last() != '/' {
        lemma_last_slash_props(s.drop_last());
        assert(forall|j: int| 0 <= j < s.len() - 1 ==> s[j] == s.drop_last()[j]);
    }
}

/// The temporary output path the renderer writes before the final rename:
/// the path's file name prefixed with "TEMP ", in the same directory.
/// Trailing slashes are ignored; a path with no file name (nothing left, or
/// a final ".." component) is refused.
pub fn temp_video_file(final_file: &str) -> (r: Result<String, util::Error>)
    ensures
        r matches Ok(t) ==> Option::Some(t@) == spec_temp_video(final_file@),
        r is Ok <==> spec_temp_video(final_file@) is Some,
        r matches Err(e) ==> e.msg_spec() == "Bad video file name"@ && !e.retryable_spec(),
{
    let n = final_file.unicode_len();
    let mut end: usize = n;
    while end > 0 && final_file.get_char(end - 1) == '/'
        invariant
            end <= n,
            n == final_file@.len(),
            forall|j: int| end <= j < n ==> final_file@[j] == '/',
        decreases end,
    {
        end = end - 1;
    }
    proof {
        lemma_strip_trailing_slashes_at(final_file@, end as int);
    }
    let ghost t = strip_trailing_slashes(final_file@);
    let mut i: usize = end;
    while i > 0 && final_file.get_char(i - 1) != '/'
        invariant
            i <= end,
            end <= n,
            n == final_file@.len(),
            forall|j: int| i <= j < end ==> final_file@[j] != '/',
        decreases i,
    {
        i = i - 1;
    }
    proof {
        assert(t =~= final_file@.take(end as int));
        lemma_last_slash_props(t);
        if i > 0 {
            assert(t[i - 1] == '/');
            assert(last_slash(t) == i - 1);
        } else {
            assert(last_slash(t) == -1);
        }
    }
    if i == end {
        return Err(util::Error::new("Bad video file name"));
    }
    let name = final_file.substring_char(i, end);
    let parent = String::from_str("..");
    if name.to_owned() == parent {
        proof {
            assert(t.skip(i as int) =~= final_file@.subrange(i as int, end as int));
        }
        return Err(util::Error::new("Bad video file name"));
    }
    let dir = final_file.substring_char(0, i).to_owned();
    let mut acc = dir;
    acc.append("TEMP ");
    acc.append(name);
    proof {
        assert(t.skip(i as int) =~= final_file@.subrange(i as int, end as int));
        assert(t.take(i as int) =~= final_file@.take(i as int));
        assert(acc@ =~= t.take(i as int).add("TEMP "@.add(t.skip(i as int))));
    }
    Ok(acc)
}

/// Index of the last '.' after the first character, or -1: the dot that
/// starts the file extension.  A leading dot hides a file rather than
/// starting an extension.
pub open spec fn last_ext_dot(s: Seq<char>) -> int
    decreases s.len(),
{
    if s.len() <= 1 {
        -1
    } else if s.last() == '.' {
        s.len() - 1
    } else {
        last_ext_dot(s.drop_last())
    }
}

/// The file name with its extension replaced by "avi" (or ".avi" appended
/// when it has none).
pub open spec fn spec_avi_name(s: Seq<char>) -> Seq<char> {
    let d = last_ext_dot(s);
    if d < 0 {
        s.add(".avi"@)
    } else {
        s.take(d).add(".avi"@)
    }
}

/// Replaces the file name's extension with "avi".
pub fn avi_name(name: &str) -> (r: String)
    ensures
        r@ == spec_avi_name(name@),
{
    let n = name.unicode_len();
    let mut i: usize = n;
    while i > 1 && name.get_char(i - 1) != '.'
        invariant
            i <= n,
            n == name@.len(),
            forall|j: int| i <= j < n ==> name@[j] != '.',
        decreases i,
    {
        i = i - 1;
    }
    proof {
        lemma_last_ext_dot_props(name@);
    }
    if i > 1 && name.get_char(i - 1) == '.' {
        proof {
            assert(last_ext_dot(name@) == i - 1);
        }
        let stem = name.substring_char(0, i - 1).to_owned();
        let mut acc = stem;
        acc.append(".avi");
        proof {
            assert(acc@ =~= spec_avi_name(name@));
        }
        acc
    } else {
        proof {
            if i > 1 {
            } else {
                if n > 1 {
                    assert(forall|j: int| 1 <= j < n ==> name@[j] != '.');
                }
            }
            assert(last_ext_dot(name@) == -1);
        }
        let mut acc = name.to_owned();
        acc.append(".avi");
        proof {
            assert(acc@ =~= spec_avi_name(name@));
        }
        acc
    }
}

proof fn lemma_last_ext_dot_props(s: Seq<char>)
    ensures
        -1 <= last_ext_dot(s) < s.len(),
        last_ext_dot(s) >= 0 ==> s[last_ext_dot(s)] == '.' && last_ext_dot(s) >= 1,
        forall|j: int| 1 <= j < s.len() && last_ext_dot(s) < j ==> s[j] != '.',
    decreases s.len(),
{
    if s.len() > 1 && s.last() != '.' {
        lemma_last_ext_dot_props(s.drop_last());
        assert(forall|j: int| 0 <= j < s.len() - 1 ==> s[j] == s.drop_last()[j]);
    }
}

} // verus!
