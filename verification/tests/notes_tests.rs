use release_updater::notes::extract_published_hash;

const PRODUCT: &str = "Kubernetes.Object.Generator";
const EXTENSION: &str = "msi";

/// The same search written with what std offers.
fn by_std(notes: &str, product: &str, extension: &str) -> Option<String> {
    let mut latest: Option<String> = None;
    for line in notes.split('\n') {
        let tokens: Vec<&str> = line.split_whitespace().collect();
        if tokens.len() > 1 && tokens[1].contains(product) && tokens[1].contains(extension) {
            latest = Some(tokens[0].to_string());
        }
    }
    latest
}

fn hash_of(notes: &str) -> Option<String> {
    extract_published_hash(notes, PRODUCT, EXTENSION)
}

#[test]
fn listed_hash_is_extracted() {
    let notes = "Release\n0123abcd Kubernetes.Object.Generator.msi\n";
    assert_eq!(hash_of(notes), Some("0123abcd".to_string()));
}

#[test]
fn a_single_listing_line_gives_its_hash() {
    assert_eq!(
        hash_of("9f86d081884c7d65 Kubernetes.Object.Generator.msi"),
        Some("9f86d081884c7d65".to_string())
    );
}

#[test]
fn listing_between_other_lines() {
    let notes = "## What's Changed\n* a fix\n\nSHA256\nabc123 Kubernetes.Object.Generator.msi\n\nThanks!";
    assert_eq!(hash_of(notes), Some("abc123".to_string()));
}

#[test]
fn no_matching_line_gives_none() {
    assert_eq!(hash_of(""), None);
    assert_eq!(hash_of("\n\n\n"), None);
    assert_eq!(hash_of("just some notes"), None);
    assert_eq!(hash_of("abc123 Other.Product.msi"), None);
    assert_eq!(hash_of("abc123 Kubernetes.Object.Generator.exe"), None);
    assert_eq!(hash_of("Kubernetes.Object.Generator.msi"), None);
    assert_eq!(hash_of("   Kubernetes.Object.Generator.msi   "), None);
}

#[test]
fn the_last_listing_wins() {
    let notes = "aaa Kubernetes.Object.Generator.msi\nbbb Kubernetes.Object.Generator.msi";
    assert_eq!(hash_of(notes), Some("bbb".to_string()));
    let notes = "aaa Kubernetes.Object.Generator.msi\nbbb Kubernetes.Object.Generator.msi\nccc other.msi\n";
    assert_eq!(hash_of(notes), Some("bbb".to_string()));
}

#[test]
fn only_the_second_token_is_looked_at() {
    assert_eq!(hash_of("Kubernetes.Object.Generator.msi abc123"), None);
    assert_eq!(hash_of("abc123 file Kubernetes.Object.Generator.msi"), None);
    assert_eq!(
        hash_of("abc123 Kubernetes.Object.Generator.msi trailing words"),
        Some("abc123".to_string())
    );
}

#[test]
fn the_second_token_must_hold_both_texts() {
    assert_eq!(hash_of("abc123 Kubernetes.Object.Generator"), None);
    assert_eq!(hash_of("abc123 setup.msi"), None);
    assert_eq!(
        hash_of("abc123 msi-Kubernetes.Object.Generator"),
        Some("abc123".to_string())
    );
    assert_eq!(
        hash_of("abc123 x64/Kubernetes.Object.Generator-1.2.msi.sig"),
        Some("abc123".to_string())
    );
}

#[test]
fn a_file_name_with_a_blank_is_not_one_token() {
    assert_eq!(extract_published_hash("abc123 My App.msi", "My App", "msi"), None);
    assert_eq!(extract_published_hash("abc123 App.msi", "App", "msi"), Some("abc123".to_string()));
}

#[test]
fn any_white_space_parts_tokens() {
    assert_eq!(
        hash_of("  \t abc123 \t  Kubernetes.Object.Generator.msi  "),
        Some("abc123".to_string())
    );
    assert_eq!(
        hash_of("abc123\u{00A0}Kubernetes.Object.Generator.msi"),
        Some("abc123".to_string())
    );
    assert_eq!(
        hash_of("abc123\u{3000}\u{2003}Kubernetes.Object.Generator.msi"),
        Some("abc123".to_string())
    );
}

#[test]
fn carriage_returns_end_the_second_token() {
    let notes = "intro\r\nabc123 Kubernetes.Object.Generator.msi\r\nend\r\n";
    assert_eq!(hash_of(notes), Some("abc123".to_string()));
}

#[test]
fn a_line_feed_parts_hash_and_file() {
    assert_eq!(hash_of("abc123\nKubernetes.Object.Generator.msi"), None);
}

#[test]
fn the_hash_is_taken_as_it_stands() {
    assert_eq!(
        hash_of("ABCDEF Kubernetes.Object.Generator.msi"),
        Some("ABCDEF".to_string())
    );
    assert_eq!(
        hash_of("`h\u{e4}sh`: Kubernetes.Object.Generator.msi"),
        Some("`h\u{e4}sh`:".to_string())
    );
    assert_eq!(
        hash_of("\u{4e2d}\u{6587} \u{1F600}Kubernetes.Object.Generator.msi"),
        Some("\u{4e2d}\u{6587}".to_string())
    );
}

#[test]
fn empty_product_and_extension_are_in_every_name() {
    assert_eq!(extract_published_hash("a b", "", ""), Some("a".to_string()));
    assert_eq!(extract_published_hash("a", "", ""), None);
    assert_eq!(extract_published_hash("", "", ""), None);
}

#[test]
fn extraction_agrees_with_std() {
    let notes = [
        "",
        "\n",
        " ",
        "a",
        "a b",
        "a  b\n",
        "\na b",
        "h1 App.msi\nh2 App.msi\n",
        "h1 App.msi\nh2 App.exe\n",
        "h1 App.exe\nh2 Other.msi\n",
        "h1 App.msi\n\n\n",
        "\t h1 \t App.msi \t x y z",
        "h1\tApp.msi\r\nh2\tApp.msi\r\n",
        "h1 App.msi\u{2028}h2 App.msi",
        "h1\u{0085}App.msi",
        "h1 \u{200B}App.msi",
        "h1 App.msih2 App.msi",
        "msi App\nApp msi\nApp.msi App.msi",
        "# Notes\n\n| hash | file |\n|---|---|\n| h1 | App.msi |\n",
        "h1 AppXmsi\n h2  msiApp \n",
    ];
    let pairs = [("App", "msi"), ("", ""), ("App", ""), ("", "msi"), ("msi", "App"), ("pp.m", "si"), ("h1", "h1")];
    for text in notes.iter() {
        for (product, extension) in pairs.iter() {
            assert_eq!(
                extract_published_hash(text, product, extension),
                by_std(text, product, extension),
                "{:?} {:?} {:?}",
                text,
                product,
                extension
            );
        }
    }
}
