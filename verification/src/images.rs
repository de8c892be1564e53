//! The image side of asset fingerprinting. Each image reference found in
//! an article body runs through a fixed policy: remote references are
//! kept; a reference into the images directory is renamed to a
//! fingerprinted output name; a missing source keeps the original
//! reference; an already-staged output is linked without re-encoding
//! (the on-disk cache); otherwise the source image is re-encoded into
//! the staging tree.

use vstd::prelude::*;
use crate::checks;
use crate::fingerprint;
use crate::paths;
use crate::strutil;
use crate::strutil::spec_starts_with;

verus! {

/// The file-name part of a reference: everything after the last `/`.
pub open spec fn spec_file_name(url: Seq<char>) -> Seq<char>
    decreases url.len(),
{
    if url.len() == 0 {
        Seq::<char>::empty()
    } else if url.last() == '/' {
        Seq::<char>::empty()
    } else {
        spec_file_name(url.drop_last()).push(url.last())
    }
}

proof fn lemma_file_name_suffix(s: Seq<char>, i: int)
    requires
        0 <= i <= s.len(),
        forall|k: int| i <= k < s.len() ==> s[k] != '/',
        i == 0 || s[i - 1] == '/',
    ensures
        spec_file_name(s) == s.skip(i),
    decreases s.len() - i,
{
    if i == s.len() {
        if i == 0 {
            assert(s.skip(0) =~= s);
        } else {
            assert(s.last() == '/');
            assert(s.skip(i) =~= Seq::<char>::empty());
        }
    } else {
        assert(s.last() != '/');
        lemma_file_name_suffix(s.drop_last(), i);
        assert(s.drop_last().skip(i) =~= s.subrange(i, s.len() - 1));
        assert(s.subrange(i, s.len() - 1).push(s.last()) =~= s.skip(i));
    }
}

/// The file-name part of a reference, per `spec_file_name`.
pub fn file_name_of(v: &Vec<char>) -> (r: Vec<char>)
    ensures
        r@ == spec_file_name(v@),
{
    let n = v.len();
    let mut i: usize = n;
    while i > 0 && v[i - 1] != '/'
        invariant
            i <= n,
            n == v@.len(),
            forall|k: int| i <= k < n ==> v@[k] != '/',
        decreases i,
    {
        i -= 1;
    }
    proof {
        lemma_file_name_suffix(v@, i as int);
        assert(v@.skip(i as int) =~= v@.subrange(i as int, n as int));
    }
    strutil::subvec(v, i, n)
}

/// Whether a reference points into the images directory.
pub open spec fn spec_is_local(url: Seq<char>) -> bool {
    spec_starts_with(url, "../images"@)
}

/// What processing one image reference decides to do.
pub enum ImageAction {
    /// The reference is remote or has no file name, or its source image
    /// is missing: keep the reference as it is.
    KeepOriginal,
    /// The fingerprinted output already exists: link it and skip
    /// re-encoding.
    UseCached,
    /// Re-encode the source image into the fingerprinted output.
    Resample,
}

/// The decision for one image reference, given what the file-system
/// probes found.
pub open spec fn spec_image_action(url: Seq<char>, source_exists: bool, staged_exists: bool) -> ImageAction {
    if !spec_is_local(url) || spec_file_name(url).len() == 0 {
        ImageAction::KeepOriginal
    } else if !source_exists {
        ImageAction::KeepOriginal
    } else if staged_exists {
        ImageAction::UseCached
    } else {
        ImageAction::Resample
    }
}

/// The caching law: whatever else the probes found, an already-staged
/// output is never re-encoded.
pub proof fn lemma_cache_hit_skips_resample(url: Seq<char>, source_exists: bool)
    ensures
        spec_image_action(url, source_exists, true) != ImageAction::Resample,
{
}

/// The reference written back into the document for a processed image.
pub open spec fn spec_html_image_path(name: Seq<char>) -> Seq<char> {
    "../images/"@ + name
}

fn html_image_path(name: &str) -> (r: String)
    ensures
        r@ == spec_html_image_path(name@),
{
    let mut r = "../images/".to_owned();
    r.append(name);
    r
}

/// The reference after processing, given the probe outcomes and whether
/// re-encoding succeeded.
pub open spec fn spec_image_result(
    url: Seq<char>,
    source_exists: bool,
    staged_exists: bool,
    saved: bool,
) -> Seq<char> {
    let name = fingerprint::spec_image_name(spec_file_name(url));
    match spec_image_action(url, source_exists, staged_exists) {
        ImageAction::KeepOriginal => url,
        ImageAction::UseCached => spec_html_image_path(name),
        ImageAction::Resample => if saved {
            spec_html_image_path(name)
        } else {
            url
        },
    }
}

/// What any processed reference may become: itself, or the fingerprinted
/// path derived from its file name.
pub open spec fn spec_acceptable_rewrite(url: Seq<char>, new: Seq<char>) -> bool {
    new == url || new == spec_html_image_path(fingerprint::spec_image_name(spec_file_name(url)))
}

/// Relies on the image crate: opens the source image, resamples it to
/// fit within 1920x1080 preserving aspect ratio (which also drops
/// embedded metadata), and writes the result to `dst`. Success depends
/// on the file system and the image bytes, so only the outcome is
/// reported.
#[verifier::external_body]
fn resample_image(src: &str, dst: &str) -> bool {
    match image::open(src) {
        Ok(img) => img.resize(1920, 1080, image::imageops::FilterType::Lanczos3).save(dst).is_ok(),
        Err(_) => false,
    }
}

/// Processes one image reference through the policy, probing the file
/// system and re-encoding at most when no staged output exists. The
/// result is `spec_image_result` for the probe outcomes the file system
/// gave; a remote reference always comes back unchanged.
pub fn process_image_url(url: &str) -> (r: String)
    ensures
        exists|source_exists: bool, staged_exists: bool, saved: bool|
            r@ == spec_image_result(url@, source_exists, staged_exists, saved),
        spec_acceptable_rewrite(url@, r@),
        !spec_is_local(url@) ==> r@ == url@,
{
    let chars = strutil::str_to_chars(url);
    let local_prefix = strutil::str_to_chars("../images");
    if !strutil::starts_with_chars(&chars, &local_prefix) {
        proof {
            assert(url@ == spec_image_result(url@, true, true, true));
        }
        return url.to_owned();
    }
    let name_chars = file_name_of(&chars);
    if name_chars.len() == 0 {
        proof {
            assert(url@ == spec_image_result(url@, true, true, true));
        }
        return url.to_owned();
    }
    let name = strutil::chars_to_string(&name_chars);
    let out_name = fingerprint::image_output_name(name.as_str());
    let source_path = paths::get_file_path((paths::images_directory(), name.as_str()));
    let staged_path = paths::get_staging_file_path((paths::images_directory(), out_name.as_str()));
    if !checks::path_exists(source_path.as_str()) {
        proof {
            assert(url@ == spec_image_result(url@, false, false, false));
        }
        return url.to_owned();
    }
    if checks::path_exists(staged_path.as_str()) {
        let r = html_image_path(out_name.as_str());
        proof {
            assert(r@ == spec_image_result(url@, true, true, true));
        }
        return r;
    }
    let saved = resample_image(source_path.as_str(), staged_path.as_str());
    if saved {
        let r = html_image_path(out_name.as_str());
        proof {
            assert(r@ == spec_image_result(url@, true, false, true));
        }
        r
    } else {
        proof {
            assert(url@ == spec_image_result(url@, true, false, false));
        }
        url.to_owned()
    }
}

} // verus!
