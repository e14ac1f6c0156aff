use release_updater::release::{select_asset, Asset, LatestRelease};

const PRODUCT: &str = "Kubernetes.Object.Generator";
const EXTENSION: &str = "msi";

fn asset(name: &str, url: &str) -> Asset {
    Asset { name: name.to_string(), browser_download_url: url.to_string() }
}

#[test]
fn the_first_asset_is_selected_where_it_fits() {
    let assets = vec![
        asset("Kubernetes.Object.Generator.msi", "https://example.org/a.msi"),
        asset("Kubernetes.Object.Generator.zip", "https://example.org/a.zip"),
    ];
    let selected = select_asset(&assets, PRODUCT, EXTENSION);
    assert_eq!(selected, Some(&assets[0]));
    assert_eq!(selected.unwrap().browser_download_url, "https://example.org/a.msi");
}

#[test]
fn an_empty_list_gives_no_asset() {
    let assets: Vec<Asset> = Vec::new();
    assert_eq!(select_asset(&assets, PRODUCT, EXTENSION), None);
}

#[test]
fn later_assets_are_not_looked_at() {
    let assets = vec![
        asset("checksums.txt", "https://example.org/checksums.txt"),
        asset("Kubernetes.Object.Generator.msi", "https://example.org/a.msi"),
    ];
    assert_eq!(select_asset(&assets, PRODUCT, EXTENSION), None);
}

#[test]
fn the_name_must_hold_product_and_extension() {
    let only_product = vec![asset("Kubernetes.Object.Generator.zip", "u")];
    assert_eq!(select_asset(&only_product, PRODUCT, EXTENSION), None);
    let only_extension = vec![asset("setup.msi", "u")];
    assert_eq!(select_asset(&only_extension, PRODUCT, EXTENSION), None);
    let both_anywhere = vec![asset("msi/Kubernetes.Object.Generator-1.0", "u")];
    assert_eq!(select_asset(&both_anywhere, PRODUCT, EXTENSION), Some(&both_anywhere[0]));
    let other_case = vec![asset("kubernetes.object.generator.msi", "u")];
    assert_eq!(select_asset(&other_case, PRODUCT, EXTENSION), None);
}

#[test]
fn a_release_holds_assets_and_notes() {
    let release = LatestRelease {
        assets: vec![asset("Kubernetes.Object.Generator.msi", "https://example.org/a.msi")],
        body: "notes".to_string(),
    };
    let copy = release.clone();
    assert_eq!(copy, release);
    assert_eq!(copy.assets.len(), 1);
    assert_eq!(copy.body, "notes");
}
