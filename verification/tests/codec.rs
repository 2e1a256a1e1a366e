use media_catalog::archive_info::ArchiveInfo;
use media_catalog::error::CatalogError;
use media_catalog::library::decode_stored;
use media_catalog::codec::{decode_metadata, encode_metadata};
use media_catalog::content_info::{
    ContentInfo, DLSiteDistributionData, GameData, GameDistribution, GameSysPlatform, GameType,
    OtherDistributionData,
};
use media_catalog::deploy_info::DeployInfo;
use media_catalog::dl_site::DLContentType;
use media_catalog::metadata::Metadata;

fn sample_record() -> Metadata {
    Metadata {
        id: "0f7a2e9c-1d34-4c5e-8b6f-a0b1c2d3e4f5".to_string(),
        title: "Demo".to_string(),
        alias: vec!["alias one".to_string(), "alias two".to_string()],
        tags: vec!["rpg".to_string()],
        collection: Some("favorites".to_string()),
        description: None,
        image: Some("hashhash".to_string()),
        content_info: ContentInfo::Game(GameData {
            version: "1.0.0".to_string(),
            game_type: GameType::RPG,
            developer: Some("Dev".to_string()),
            publisher: None,
            sys_platform: vec![GameSysPlatform::Windows, GameSysPlatform::Linux],
            distribution: GameDistribution::DLSite(DLSiteDistributionData {
                id: "01397047".to_string(),
                content_type: DLContentType::DoujinR18,
            }),
        }),
        archive_info: ArchiveInfo::ArchiveFile {
            size: 1234,
            path: "game/dl/RJ01397047.a".to_string(),
            password: Some("secret".to_string()),
        },
        deploy_info: DeployInfo::Directory { path: "/out".to_string() },
        create_time: 1000,
        update_time: 2000,
    }
}

#[test]
fn encode_then_decode_yields_equal_record() {
    let m = sample_record();
    let bytes = encode_metadata(&m);
    let back = decode_metadata(&bytes).expect("decoding an encoding must succeed");
    assert_eq!(back, m);
}

#[test]
fn encode_then_decode_minimal_record() {
    let m = Metadata {
        id: "x".to_string(),
        title: String::new(),
        alias: vec![],
        tags: vec![],
        collection: None,
        description: None,
        image: None,
        content_info: ContentInfo::Undefined,
        archive_info: ArchiveInfo::Absent,
        deploy_info: DeployInfo::Absent,
        create_time: 0,
        update_time: 0,
    };
    let bytes = encode_metadata(&m);
    let back = decode_metadata(&bytes).expect("decoding an encoding must succeed");
    assert_eq!(back, m);
}

#[test]
fn encode_then_decode_other_distribution() {
    let mut m = sample_record();
    m.content_info = ContentInfo::Game(GameData {
        version: "0.9".to_string(),
        game_type: GameType::Unspecified,
        developer: None,
        publisher: Some("Pub".to_string()),
        sys_platform: vec![GameSysPlatform::MacOS],
        distribution: GameDistribution::Other(OtherDistributionData {
            name: "itch".to_string(),
            id: "demo-game".to_string(),
        }),
    });
    m.archive_info = ArchiveInfo::CommonFile { size: 9, path: "/files/demo.bin".to_string() };
    m.deploy_info = DeployInfo::File { path: "/out/demo.bin".to_string() };
    let bytes = encode_metadata(&m);
    let back = decode_metadata(&bytes).expect("decoding an encoding must succeed");
    assert_eq!(back, m);
}

#[test]
fn decode_rejects_truncated_input() {
    let m = sample_record();
    let mut bytes = encode_metadata(&m);
    bytes.pop();
    assert!(decode_metadata(&bytes).is_none());
}

#[test]
fn decode_rejects_trailing_garbage() {
    let m = sample_record();
    let mut bytes = encode_metadata(&m);
    bytes.push(0);
    assert!(decode_metadata(&bytes).is_none());
}

#[test]
fn decode_rejects_unknown_tag() {
    let bytes = vec![9u8; 64];
    assert!(decode_metadata(&bytes).is_none());
}

#[test]
fn decode_stored_surfaces_serialization_error() {
    let bad = vec![1u8, 2, 3];
    let err = decode_stored("some-id", &bad).unwrap_err();
    assert!(matches!(err, CatalogError::SerializationError { .. }));
    assert_eq!(err.message(), "serialization error for record some-id");

    let m = sample_record();
    let bytes = encode_metadata(&m);
    let ok = decode_stored(&m.id, &bytes).unwrap();
    assert_eq!(ok, m);
}
