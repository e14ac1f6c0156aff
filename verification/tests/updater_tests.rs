use release_updater::digest::compute_local_digest;
use release_updater::release::{Asset, LatestRelease};
use release_updater::updater::{
    cache_path, compare, download_line, latest_release_url, plan_update, status_line, Finding, Plan,
};

const PRODUCT: &str = "Kubernetes.Object.Generator";
const EXTENSION: &str = "msi";
const URL: &str = "https://example.org/download/Kubernetes.Object.Generator.msi";

fn release(assets: Vec<Asset>, body: &str) -> LatestRelease {
    LatestRelease { assets, body: body.to_string() }
}

fn installer() -> Asset {
    Asset { name: "Kubernetes.Object.Generator.msi".to_string(), browser_download_url: URL.to_string() }
}

fn notes_for(content: &[u8]) -> String {
    format!(
        "## Checksums\n{} Kubernetes.Object.Generator.msi\n",
        compute_local_digest(content).unwrap()
    )
}

/// Carries a plan out on a file kept in memory; `served` is what the
/// download address gives. Returns what was done, in order.
fn carry_out(plan: &Plan, file: &mut Option<Vec<u8>>, served: &[u8]) -> Vec<String> {
    let mut done = vec![status_line(plan.finding).to_string()];
    if plan.deletes() {
        assert!(file.is_some());
        *file = None;
        done.push("delete".to_string());
    }
    if let Some(url) = &plan.download {
        *file = Some(served.to_vec());
        done.push(download_line(url));
    }
    done
}

#[test]
fn absent_file_is_downloaded_from_the_matching_asset() {
    let served = b"new installer";
    let latest = release(vec![installer()], &notes_for(served));
    let plan = plan_update(&latest, None, PRODUCT, EXTENSION);
    assert_eq!(plan, Plan { finding: Finding::NotFound, download: Some(URL.to_string()) });
    assert!(!plan.deletes());
    let mut file = None;
    let done = carry_out(&plan, &mut file, served);
    assert_eq!(done, vec!["Not Found".to_string(), format!("Download {}", URL)]);
    assert_eq!(file, Some(served.to_vec()));
}

#[test]
fn matching_file_is_left_alone() {
    let content = b"the installer";
    let latest = release(vec![installer()], &notes_for(content));
    let digest = compute_local_digest(content).unwrap();
    let plan = plan_update(&latest, Some(&digest), PRODUCT, EXTENSION);
    assert_eq!(plan, Plan { finding: Finding::HashMatch, download: None });
    assert!(!plan.deletes());
    let mut file = Some(content.to_vec());
    let done = carry_out(&plan, &mut file, b"must not be fetched");
    assert_eq!(done, vec!["Hash Match!".to_string()]);
    assert_eq!(file, Some(content.to_vec()));
}

#[test]
fn differing_file_is_deleted_and_downloaded_again() {
    let served = b"new installer";
    let stale = b"old installer";
    let latest = release(vec![installer()], &notes_for(served));
    let digest = compute_local_digest(stale).unwrap();
    let plan = plan_update(&latest, Some(&digest), PRODUCT, EXTENSION);
    assert_eq!(plan, Plan { finding: Finding::HashMismatch, download: Some(URL.to_string()) });
    assert!(plan.deletes());
    let mut file = Some(stale.to_vec());
    let done = carry_out(&plan, &mut file, served);
    assert_eq!(
        done,
        vec!["Hash Mismatch!".to_string(), "delete".to_string(), format!("Download {}", URL)]
    );
    assert_eq!(file, Some(served.to_vec()));
    let after = compute_local_digest(file.as_ref().unwrap()).unwrap();
    assert_eq!(plan_update(&latest, Some(&after), PRODUCT, EXTENSION).finding, Finding::HashMatch);
}

#[test]
fn empty_asset_list_downloads_nothing() {
    let latest = release(Vec::new(), &notes_for(b"new"));
    let plan = plan_update(&latest, None, PRODUCT, EXTENSION);
    assert_eq!(plan, Plan { finding: Finding::NotFound, download: None });
    let mut file = None;
    assert_eq!(carry_out(&plan, &mut file, b"new"), vec!["Not Found".to_string()]);
    assert_eq!(file, None);

    let digest = compute_local_digest(b"old").unwrap();
    let plan = plan_update(&latest, Some(&digest), PRODUCT, EXTENSION);
    assert_eq!(plan, Plan { finding: Finding::HashMismatch, download: None });
    let mut file = Some(b"old".to_vec());
    assert_eq!(
        carry_out(&plan, &mut file, b"new"),
        vec!["Hash Mismatch!".to_string(), "delete".to_string()]
    );
    assert_eq!(file, None);
}

#[test]
fn only_the_first_asset_counts() {
    let other = Asset { name: "checksums.txt".to_string(), browser_download_url: "u".to_string() };
    let latest = release(vec![other, installer()], &notes_for(b"new"));
    assert_eq!(plan_update(&latest, None, PRODUCT, EXTENSION).download, None);
}

#[test]
fn notes_without_a_hash_never_match_a_digest() {
    let latest = release(vec![installer()], "no checksums here");
    let digest = compute_local_digest(b"content").unwrap();
    let plan = plan_update(&latest, Some(&digest), PRODUCT, EXTENSION);
    assert_eq!(plan, Plan { finding: Finding::HashMismatch, download: Some(URL.to_string()) });
}

#[test]
fn no_published_hash_stands_for_the_empty_text() {
    assert_eq!(compare("no checksums here", Some(""), PRODUCT, EXTENSION), Finding::HashMatch);
    assert_eq!(compare("no checksums here", Some("0"), PRODUCT, EXTENSION), Finding::HashMismatch);
    assert_eq!(compare("no checksums here", None, PRODUCT, EXTENSION), Finding::NotFound);
}

#[test]
fn digests_are_compared_as_they_stand() {
    let notes = "ABCDEF Kubernetes.Object.Generator.msi";
    assert_eq!(compare(notes, Some("ABCDEF"), PRODUCT, EXTENSION), Finding::HashMatch);
    assert_eq!(compare(notes, Some("abcdef"), PRODUCT, EXTENSION), Finding::HashMismatch);
    assert_eq!(compare(notes, Some("ABCDE"), PRODUCT, EXTENSION), Finding::HashMismatch);
    assert_eq!(compare(notes, Some("ABCDEF0"), PRODUCT, EXTENSION), Finding::HashMismatch);
    assert_eq!(compare(notes, None, PRODUCT, EXTENSION), Finding::NotFound);
}

#[test]
fn the_last_listing_is_the_one_compared() {
    let notes = "aaa Kubernetes.Object.Generator.msi\nbbb Kubernetes.Object.Generator.msi";
    assert_eq!(compare(notes, Some("bbb"), PRODUCT, EXTENSION), Finding::HashMatch);
    assert_eq!(compare(notes, Some("aaa"), PRODUCT, EXTENSION), Finding::HashMismatch);
}

#[test]
fn status_lines() {
    assert_eq!(status_line(Finding::NotFound), "Not Found");
    assert_eq!(status_line(Finding::HashMismatch), "Hash Mismatch!");
    assert_eq!(status_line(Finding::HashMatch), "Hash Match!");
    assert_eq!(download_line(URL), format!("Download {}", URL));
    assert_eq!(download_line(""), "Download ");
}

#[test]
fn addresses_and_paths() {
    assert_eq!(
        latest_release_url("momozahara", "kubernetes-object-generator"),
        "https://api.github.com/repos/momozahara/kubernetes-object-generator/releases/latest"
    );
    assert_eq!(latest_release_url("", ""), "https://api.github.com/repos///releases/latest");
    assert_eq!(cache_path(PRODUCT, EXTENSION), "./Kubernetes.Object.Generator.msi");
    assert_eq!(cache_path("a", "b"), "./a.b");
}
