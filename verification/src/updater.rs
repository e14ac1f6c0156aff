//! What has to happen to the cached installer, given the latest release and
//! the digest of the cached file.

use crate::notes::{extract_published_hash, lemma_published_hash_solid, published_hash};
use crate::release::{asset_views, select_asset, selected_asset, LatestRelease, ReleaseView};
use vstd::prelude::*;
use vstd::string::StringExecFns;

verus! {

/// What the comparison of the cached file with the release has found.
#[derive(Clone, Copy, Debug, PartialEq, Eq, Structural)]
pub enum Finding {
    /// There is no cached file.
    NotFound,
    /// The digest of the cached file is not the hash that the notes publish,
    /// or the notes publish none.
    HashMismatch,
    /// The digest of the cached file is the hash that the notes publish.
    HashMatch,
}

/// What to do about the cached file: first report the finding, then delete
/// the file where the plan says so, then download where it names an address.
#[derive(Clone, Debug, PartialEq, Eq)]
pub struct Plan {
    pub finding: Finding,
    /// The address to download the installer from, where there is one to
    /// download.
    pub download: Option<String>,
}

/// A plan as plain values.
pub struct PlanView {
    pub finding: Finding,
    pub download: Option<Seq<char>>,
}

impl View for Plan {
    type V = PlanView;

    open spec fn view(&self) -> PlanView {
        PlanView {
            finding: self.finding,
            download: match self.download {
                Some(url) => Some(url@),
                None => None,
            },
        }
    }
}

impl PlanView {
    /// Whether the cached file is to be deleted: where its digest is not the
    /// published hash.
    pub open spec fn deletes(self) -> bool {
        self.finding is HashMismatch
    }
}

impl Plan {
    /// Tells whether the cached file is to be deleted.
    pub fn deletes(&self) -> (r: bool)
        ensures
            r == self@.deletes(),
    {
        match self.finding {
            Finding::HashMismatch => true,
            _ => false,
        }
    }
}

/// The text that a digest is compared with: the published hash, or the
/// empty text where the notes publish none.
pub open spec fn expected_digest(notes: Seq<char>, product: Seq<char>, extension: Seq<char>) -> Seq<
    char,
> {
    match published_hash(notes, product, extension) {
        Some(hash) => hash,
        None => Seq::empty(),
    }
}

/// What is found of a cached file with the digest `local`, `None` where
/// there is no file, against the notes of the release. The digest matches
/// where it is, character by character, the text that is expected.
pub open spec fn found(
    notes: Seq<char>,
    local: Option<Seq<char>>,
    product: Seq<char>,
    extension: Seq<char>,
) -> Finding {
    match local {
        None => Finding::NotFound,
        Some(digest) => if digest == expected_digest(notes, product, extension) {
            Finding::HashMatch
        } else {
            Finding::HashMismatch
        },
    }
}

/// The plan for a cached file with the digest `local`, `None` where there
/// is no file: a file that matches is left alone; a missing or a differing
/// one is downloaded from the address of the selected asset, where there is
/// such an asset.
pub open spec fn planned(
    release: ReleaseView,
    local: Option<Seq<char>>,
    product: Seq<char>,
    extension: Seq<char>,
) -> PlanView {
    let finding = found(release.notes, local, product, extension);
    PlanView {
        finding,
        download: if finding is HashMatch {
            None
        } else {
            match selected_asset(release.assets, product, extension) {
                Some(asset) => Some(asset.download_url),
                None => None,
            }
        },
    }
}

/// The digest as plain values.
pub open spec fn digest_view(local: Option<&str>) -> Option<Seq<char>> {
    match local {
        Some(digest) => Some(digest@),
        None => None,
    }
}

/// Compares the cached file with the release: `local_digest` is the digest
/// of the file in lower-case hexadecimal digits, `None` where there is no
/// file.
pub fn compare(
    notes: &str,
    local_digest: Option<&str>,
    product_name: &str,
    extension: &str,
) -> (finding: Finding)
    ensures
        finding == found(notes@, digest_view(local_digest), product_name@, extension@),
{
    match local_digest {
        None => Finding::NotFound,
        Some(digest) => {
            let same = match extract_published_hash(notes, product_name, extension) {
                Some(hash) => hash == String::from_str(digest),
                None => digest.is_empty(),
            };
            if same {
                assert(digest@ =~= expected_digest(notes@, product_name@, extension@));
                Finding::HashMatch
            } else {
                Finding::HashMismatch
            }
        },
    }
}

/// Decides what has to happen to the cached file.
pub fn plan_update(
    release: &LatestRelease,
    local_digest: Option<&str>,
    product_name: &str,
    extension: &str,
) -> (plan: Plan)
    ensures
        plan@ == planned(release@, digest_view(local_digest), product_name@, extension@),
{
    let finding = compare(release.body.as_str(), local_digest, product_name, extension);
    let download = match finding {
        Finding::HashMatch => None,
        _ => match select_asset(release.assets.as_slice(), product_name, extension) {
            Some(asset) => Some(asset.browser_download_url.clone()),
            None => None,
        },
    };
    Plan { finding, download }
}

/// The text that a digest is compared with is empty exactly where the notes
/// publish no hash: what they publish is never empty.
pub proof fn lemma_expected_empty(notes: Seq<char>, product: Seq<char>, extension: Seq<char>)
    ensures
        expected_digest(notes, product, extension).len() == 0 <==> published_hash(
            notes,
            product,
            extension,
        ) is None,
{
    lemma_published_hash_solid(notes, product, extension);
}

/// A cached file whose digest is the published hash is neither deleted nor
/// downloaded again.
pub proof fn lemma_match_needs_nothing(
    release: ReleaseView,
    digest: Seq<char>,
    product: Seq<char>,
    extension: Seq<char>,
)
    requires
        published_hash(release.notes, product, extension) == Some(digest),
    ensures
        planned(release, Some(digest), product, extension).finding == Finding::HashMatch,
        !planned(release, Some(digest), product, extension).deletes(),
        planned(release, Some(digest), product, extension).download is None,
{
}

/// A cached file whose digest is not the published hash is deleted, and
/// downloaded again from the address of the selected asset, if there is one.
/// So is every cached file with a digest that is not empty where the notes
/// publish no hash.
pub proof fn lemma_mismatch_replaces(
    release: ReleaseView,
    digest: Seq<char>,
    product: Seq<char>,
    extension: Seq<char>,
)
    requires
        digest.len() > 0,
        published_hash(release.notes, product, extension) != Some(digest),
    ensures
        planned(release, Some(digest), product, extension).finding == Finding::HashMismatch,
        planned(release, Some(digest), product, extension).deletes(),
        planned(release, Some(digest), product, extension).download == match selected_asset(
            release.assets,
            product,
            extension,
        ) {
            Some(asset) => Some(asset.download_url),
            None => None,
        },
{
}

/// A missing file is not deleted; it is downloaded from the address of the
/// selected asset, if there is one.
pub proof fn lemma_missing_downloads(release: ReleaseView, product: Seq<char>, extension: Seq<char>)
    ensures
        planned(release, None, product, extension).finding == Finding::NotFound,
        !planned(release, None, product, extension).deletes(),
        planned(release, None, product, extension).download == match selected_asset(
            release.assets,
            product,
            extension,
        ) {
            Some(asset) => Some(asset.download_url),
            None => None,
        },
{
}

/// A release without assets gives nothing to download, whatever the cached
/// file is.
pub proof fn lemma_no_assets_no_download(
    release: ReleaseView,
    local: Option<Seq<char>>,
    product: Seq<char>,
    extension: Seq<char>,
)
    requires
        release.assets.len() == 0,
    ensures
        planned(release, local, product, extension).download is None,
{
}

/// The line that reports a finding.
pub fn status_line(finding: Finding) -> (line: &'static str)
    ensures
        line@ == match finding {
            Finding::NotFound => "Not Found"@,
            Finding::HashMismatch => "Hash Mismatch!"@,
            Finding::HashMatch => "Hash Match!"@,
        },
{
    match finding {
        Finding::NotFound => "Not Found",
        Finding::HashMismatch => "Hash Mismatch!",
        Finding::HashMatch => "Hash Match!",
    }
}

/// The line that reports a download from `url`.
pub fn download_line(url: &str) -> (line: String)
    ensures
        line@ == "Download "@ + url@,
{
    String::from_str("Download ").concat(url)
}

/// The address that gives the latest release of the repository `repo` of
/// `owner`.
pub fn latest_release_url(owner: &str, repo: &str) -> (url: String)
    ensures
        url@ == "https://api.github.com/repos/"@ + owner@ + "/"@ + repo@ + "/releases/latest"@,
{
    String::from_str("https://api.github.com/repos/").concat(owner).concat("/").concat(
        repo,
    ).concat("/releases/latest")
}

/// The path of the cached installer: in the working directory, the name of
/// the product, a dot and the extension.
pub fn cache_path(product_name: &str, extension: &str) -> (path: String)
    ensures
        path@ == "./"@ + product_name@ + "."@ + extension@,
{
    String::from_str("./").concat(product_name).concat(".").concat(extension)
}

} // verus!
