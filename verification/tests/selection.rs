use ptr_plugins::arch::Arch;
use ptr_plugins::error::Error;
use ptr_plugins::release::{Asset, ReleaseMetadata};
use ptr_plugins::select::{
    manual_select, match_outcome, parse_index, select_asset, self_update, settle, Selection,
};

fn asset(name: &str) -> Asset {
    Asset { name: name.to_string(), download_url: format!("https://example.invalid/{name}") }
}

fn three() -> Vec<Asset> {
    vec![asset("foo-x64.zip"), asset("foo-ARM64.zip"), asset("foo-linux.tar.gz")]
}

#[test]
fn architecture_picks_the_matching_archive() {
    for _ in 0..3 {
        assert_eq!(select_asset(&three(), None, &Arch::X64), Ok(Selection::Picked(0)));
    }
}

#[test]
fn architecture_matches_the_upper_case_token() {
    assert_eq!(select_asset(&three(), None, &Arch::ARM64), Ok(Selection::Picked(1)));
    let lower = vec![asset("a-arm64.zip"), asset("a-X64.zip")];
    assert_eq!(select_asset(&lower, None, &Arch::ARM64), Ok(Selection::Picked(0)));
    assert_eq!(select_asset(&lower, None, &Arch::X64), Ok(Selection::Picked(1)));
}

#[test]
fn architecture_wants_an_archive() {
    assert!(asset("foo-x64.zip").is_arch(&Arch::X64));
    assert!(asset("foo-X64.zip").is_arch(&Arch::X64));
    assert!(!asset("foo-x64.tar.gz").is_arch(&Arch::X64));
    assert!(!asset("foo-X64.zip").is_arch(&Arch::ARM64));
    assert!(!asset("foo-Arm64.zip").is_arch(&Arch::ARM64));
    assert!(!asset(".zip").is_arch(&Arch::X64));
}

#[test]
fn pattern_comes_before_architecture() {
    assert_eq!(select_asset(&three(), Some("linux"), &Arch::X64), Ok(Selection::Picked(2)));
    assert_eq!(select_asset(&three(), Some("linux"), &Arch::ARM64), Ok(Selection::Picked(2)));
    assert_eq!(
        select_asset(&three(), Some(r"^foo-.*\.zip$"), &Arch::ARM64),
        Ok(Selection::Picked(0))
    );
}

#[test]
fn pattern_is_a_regular_expression() {
    let assets = vec![asset("a.b.zip"), asset("a+b.zip"), asset("aab.zip")];
    assert_eq!(select_asset(&assets, Some(r"a\+b"), &Arch::X64), Ok(Selection::Picked(1)));
    assert_eq!(select_asset(&assets, Some("a+b"), &Arch::X64), Ok(Selection::Picked(2)));
}

#[test]
fn pattern_that_is_no_expression_is_refused() {
    assert_eq!(
        select_asset(&three(), Some("foo("), &Arch::X64),
        Err(Error::InvalidPattern("foo(".to_string()))
    );
}

#[test]
fn nothing_found_asks_the_user() {
    let assets = vec![asset("a.bin"), asset("b.bin")];
    assert_eq!(select_asset(&assets, None, &Arch::X64), Ok(Selection::Manual));
    assert_eq!(select_asset(&assets, Some("zip"), &Arch::X64), Ok(Selection::Manual));
}

#[test]
fn manual_choice_by_index() {
    let assets = vec![asset("a.bin"), asset("b.bin")];
    assert_eq!(manual_select(&assets, "1"), Ok(1));
    assert_eq!(assets[manual_select(&assets, "1").unwrap()].name, "b.bin");
    assert_eq!(manual_select(&assets, "0"), Ok(0));
    assert_eq!(manual_select(&assets, "5"), Err(Error::InvalidSelection));
    assert_eq!(manual_select(&assets, "2"), Err(Error::InvalidSelection));
    assert_eq!(manual_select(&assets, "one"), Err(Error::InvalidSelection));
    assert_eq!(manual_select(&assets, ""), Err(Error::InvalidSelection));
}

#[test]
fn single_asset_is_taken_unmatched() {
    let assets = vec![asset("only.tar.gz")];
    assert_eq!(select_asset(&assets, None, &Arch::X64), Ok(Selection::Picked(0)));
    assert_eq!(select_asset(&assets, Some("zip"), &Arch::X64), Ok(Selection::Picked(0)));
    assert_eq!(select_asset(&assets, Some("foo("), &Arch::X64), Ok(Selection::Picked(0)));
}

#[test]
fn release_without_assets_offers_nothing() {
    assert_eq!(select_asset(&Vec::new(), None, &Arch::X64), Err(Error::NoMatchingAsset));
    assert_eq!(select_asset(&Vec::new(), Some("foo("), &Arch::X64), Err(Error::NoMatchingAsset));
}

#[test]
fn settle_by_count_and_find() {
    assert_eq!(settle(0, None), Err(Error::NoMatchingAsset));
    assert_eq!(settle(0, Some(3)), Err(Error::NoMatchingAsset));
    assert_eq!(settle(1, None), Ok(Selection::Picked(0)));
    assert_eq!(settle(3, Some(2)), Ok(Selection::Picked(2)));
    assert_eq!(settle(3, None), Ok(Selection::Manual));
}

#[test]
fn index_as_typed() {
    assert_eq!(parse_index("0"), Some(0));
    assert_eq!(parse_index("42"), Some(42));
    assert_eq!(parse_index("007"), Some(7));
    assert_eq!(parse_index("+3"), Some(3));
    assert_eq!(parse_index(""), None);
    assert_eq!(parse_index("+"), None);
    assert_eq!(parse_index("-1"), None);
    assert_eq!(parse_index("++1"), None);
    assert_eq!(parse_index("1 "), None);
    assert_eq!(parse_index("12a"), None);
    assert_eq!(parse_index("१"), None);
    assert_eq!(parse_index(&usize::MAX.to_string()), Some(usize::MAX));
    assert_eq!(parse_index(&format!("{}0", usize::MAX)), None);
    assert_eq!(parse_index("18446744073709551616"), "18446744073709551616".parse::<usize>().ok());
    assert_eq!(parse_index("99999999999999999999999999x"), None);
}

#[test]
fn index_as_the_standard_library_reads_it() {
    for text in ["0", "9", "10", "+10", "0010", "", "+", "-", "-0", " 1", "1_0", "0x10", "4294967296"] {
        assert_eq!(parse_index(text), text.parse::<usize>().ok(), "{text:?}");
    }
}

fn release(tag: &str, names: &[&str]) -> ReleaseMetadata {
    ReleaseMetadata { tag: tag.to_string(), assets: names.iter().map(|n| asset(n)).collect() }
}

#[test]
fn self_update_when_up_to_date() {
    let latest = release("v1.2.3", &["ptr-x86_64.zip"]);
    assert_eq!(self_update(&latest, "1.2.3", "x86_64"), Ok(None));
}

#[test]
fn self_update_takes_the_machines_asset() {
    let latest = release("v1.3.0", &["ptr-aarch64.zip", "ptr-x86_64.zip", "ptr-x86_64.tar"]);
    assert_eq!(self_update(&latest, "1.2.3", "x86_64"), Ok(Some(1)));
    assert_eq!(self_update(&latest, "1.2.3", "aarch64"), Ok(Some(0)));
    assert_eq!(self_update(&latest, "v1.3.0", "aarch64"), Ok(Some(0)));
    assert_eq!(self_update(&latest, "1.2.3", "riscv64"), Err(Error::NoMatchingAsset));
}

#[test]
fn outcome_of_a_match() {
    assert_eq!(match_outcome(Some(true), "a"), Ok(true));
    assert_eq!(match_outcome(Some(false), "a"), Ok(false));
    assert_eq!(match_outcome(None, "a("), Err(Error::InvalidPattern("a(".to_string())));
}
