use media_catalog::content_info::DLSiteDistributionData;
use media_catalog::dl_site::{build_url, DLContentType, Language};
use media_catalog::content_info::{
    ContentInfo, GameData, GameDistribution, GameSysPlatform, GameType, SteamDistributionData,
};
use media_catalog::text::join_path;

#[test]
fn metadata_test_content_info() {
    let c1 = ContentInfo::Undefined;
    let c1_rel = c1.path_rel();
    println!("{:?}", c1_rel);
    assert_eq!(c1_rel, "undefined");

    let c2 = ContentInfo::Game(GameData {
        version: "1.0".to_string(),
        game_type: GameType::Unspecified,
        developer: Some("Dev".to_string()),
        publisher: Some("Pub".to_string()),
        sys_platform: vec![GameSysPlatform::Windows],
        distribution: GameDistribution::Steam(SteamDistributionData {
            app_id: "12345".to_string(),
        }),
    });
    let c2_rel = c2.path_rel();
    println!("{:?}", c2_rel);
    assert_eq!(c2_rel, "game/steam");

    let base = "any_base/this/is/for/test";
    let c2_full = join_path(base, c2_rel.as_str());
    println!("{:?}", c2_full);
    assert_eq!(c2_full, "any_base/this/is/for/test/game/steam");
}

#[test]
fn mod_test_content_info() {
    let c1 = ContentInfo::Undefined;
    let c1_rel = c1.path_rel();
    println!("{:?}", c1_rel);
    assert_eq!(c1_rel, "undefined");

    let c2 = ContentInfo::Game(GameData {
        version: "1.0".to_string(),
        game_type: GameType::RPG,
        developer: Some("Dev".to_string()),
        publisher: Some("Pub".to_string()),
        sys_platform: vec![GameSysPlatform::Windows],
        distribution: GameDistribution::Steam(SteamDistributionData {
            app_id: "123456".to_string(),
        }),
    });
    let c2_rel = c2.path_rel();
    println!("{:?}", c2_rel);
    assert_eq!(c2_rel, "game/steam");

    let base = "any_base/this/is/for/test";
    let c2_full = join_path(base, c2_rel.as_str());
    println!("{:?}", c2_full);
    assert_eq!(c2_full, "any_base/this/is/for/test/game/steam");
}

#[test]
fn content_file_names_use_natural_identifiers() {
    let steam = ContentInfo::Game(GameData {
        version: "2.0".to_string(),
        game_type: GameType::SLG,
        developer: None,
        publisher: None,
        sys_platform: vec![],
        distribution: GameDistribution::Steam(SteamDistributionData {
            app_id: "777".to_string(),
        }),
    });
    assert_eq!(steam.file_name("20260101000000"), "777");

    let unknown = ContentInfo::Game(GameData {
        version: "2.0".to_string(),
        game_type: GameType::AVG,
        developer: None,
        publisher: None,
        sys_platform: vec![],
        distribution: GameDistribution::Unknown,
    });
    assert_eq!(unknown.file_name("20260101000000"), "Unknown-20260101000000");

    let undefined = ContentInfo::Undefined;
    assert_eq!(undefined.file_name("20260101000000"), "Content-20260101000000");
}

#[test]
fn dl_site_ids_and_urls() {
    let d = DLSiteDistributionData {
        id: "01239331".to_string(),
        content_type: DLContentType::DoujinR18,
    };
    assert_eq!(d.full_id(), "RJ01239331");
    assert_eq!(DLContentType::DoujinR18.name_url(), "maniax");
    assert_eq!(DLContentType::PcGames.name_prefix(), "VJ");
    let url = build_url(&DLContentType::DoujinR18, "RJ01239331", &Language::JaJp);
    assert_eq!(
        url,
        "https://www.dlsite.com/maniax/work/=/product_id/RJ01239331.html/?locale=ja_JP"
    );
}
