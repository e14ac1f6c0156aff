//! A release as the release service describes it, and the asset of it that
//! is the installer.

use crate::notes::names_installer;
use crate::text::contains_text;
use vstd::prelude::*;

verus! {

/// A file attached to a release.
#[derive(Clone, Debug, PartialEq, Eq)]
pub struct Asset {
    pub name: String,
    pub browser_download_url: String,
}

/// An asset as plain values.
pub struct AssetView {
    pub name: Seq<char>,
    pub download_url: Seq<char>,
}

impl View for Asset {
    type V = AssetView;

    open spec fn view(&self) -> AssetView {
        AssetView { name: self.name@, download_url: self.browser_download_url@ }
    }
}

/// The latest release: its assets in the order in which the service lists
/// them, and its notes.
#[derive(Clone, Debug, PartialEq, Eq)]
pub struct LatestRelease {
    pub assets: Vec<Asset>,
    pub body: String,
}

/// A release as plain values.
pub struct ReleaseView {
    pub assets: Seq<AssetView>,
    pub notes: Seq<char>,
}

/// The assets as plain values, in the same order.
pub open spec fn asset_views(assets: Seq<Asset>) -> Seq<AssetView> {
    Seq::new(assets.len(), |i: int| assets[i]@)
}

impl View for LatestRelease {
    type V = ReleaseView;

    open spec fn view(&self) -> ReleaseView {
        ReleaseView { assets: asset_views(self.assets@), notes: self.body@ }
    }
}

/// The asset that is taken for the installer: the first of the list, if its
/// name holds both `product` and `extension`. No other asset is looked at.
pub open spec fn selected_asset(
    assets: Seq<AssetView>,
    product: Seq<char>,
    extension: Seq<char>,
) -> Option<AssetView> {
    if assets.len() > 0 && names_installer(assets[0].name, product, extension) {
        Some(assets[0])
    } else {
        None
    }
}

/// Picks the installer among `assets`: the first asset, where its name
/// holds both `product_name` and `extension`; else none, also where a later
/// asset would fit.
pub fn select_asset<'a>(assets: &'a [Asset], product_name: &str, extension: &str) -> (r: Option<
    &'a Asset,
>)
    ensures
        match r {
            Some(asset) => {
                &&& selected_asset(asset_views(assets@), product_name@, extension@) == Some(asset@)
                &&& assets@.len() > 0
                &&& *asset == assets@[0]
            },
            None => selected_asset(asset_views(assets@), product_name@, extension@) is None,
        },
{
    if assets.len() == 0 {
        return None;
    }
    let first = &assets[0];
    if contains_text(first.name.as_str(), product_name) && contains_text(
        first.name.as_str(),
        extension,
    ) {
        Some(first)
    } else {
        None
    }
}

} // verus!
