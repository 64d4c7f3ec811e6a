use lottie_core::model::ImageSource;
use lottie_core::registry::register_assets;
use lottie_core::assets::{
    asset_class, asset_path, asset_source, asset_type_code, collect_nonvisual_ref_ids,
    data_source_record, is_data_path, is_sound_path, parse_i64, sound_asset_record, AssetClass,
    AssetEntry, AssetSource, AssetTypeValue, LayerLink,
};

#[test]
fn asset_path_joins_directory_and_file() {
    assert_eq!(asset_path(Some("images/"), Some("img_0.png")), Some("images/img_0.png".to_string()));
    assert_eq!(asset_path(Some(""), Some("img_0.png")), Some("img_0.png".to_string()));
    assert_eq!(asset_path(None, Some("img_0.png")), Some("img_0.png".to_string()));
    assert_eq!(asset_path(Some("images/"), None), None);
}

#[test]
fn asset_path_keeps_data_uris() {
    let uri = "data:image/png;base64,AAAA";
    assert_eq!(asset_path(Some("images/"), Some(uri)), Some(uri.to_string()));
}

#[test]
fn sound_and_data_paths_ignore_case() {
    assert!(is_sound_path("music/Theme.MP3"));
    assert!(is_sound_path("a.wav"));
    assert!(is_sound_path("a.Flac"));
    assert!(is_sound_path("a.m4a"));
    assert!(!is_sound_path("a.mp4"));
    assert!(!is_sound_path("wav"));
    assert!(is_data_path("data/Values.JSON"));
    assert!(!is_data_path("values.json5"));
}

#[test]
fn parse_i64_follows_decimal_parsing() {
    assert_eq!(parse_i64("42"), Some(42));
    assert_eq!(parse_i64("-7"), Some(-7));
    assert_eq!(parse_i64("+5"), Some(5));
    assert_eq!(parse_i64("007"), Some(7));
    assert_eq!(parse_i64(""), None);
    assert_eq!(parse_i64("-"), None);
    assert_eq!(parse_i64("+"), None);
    assert_eq!(parse_i64(" 1"), None);
    assert_eq!(parse_i64("1a"), None);
    assert_eq!(parse_i64("9223372036854775807"), Some(i64::MAX));
    assert_eq!(parse_i64("9223372036854775808"), None);
    assert_eq!(parse_i64("-9223372036854775808"), Some(i64::MIN));
    assert_eq!(parse_i64("-9223372036854775809"), None);
    for s in ["0", "-0", "12345678901", "x", "--1", "3.0"] {
        assert_eq!(parse_i64(s), s.parse::<i64>().ok(), "input {s:?}");
    }
}

#[test]
fn asset_type_code_reads_numbers_and_strings() {
    assert_eq!(asset_type_code(&Some(AssetTypeValue::Number(Some(3)))), Some(3));
    assert_eq!(asset_type_code(&Some(AssetTypeValue::Number(None))), None);
    assert_eq!(asset_type_code(&Some(AssetTypeValue::Text("3".to_string()))), Some(3));
    assert_eq!(asset_type_code(&Some(AssetTypeValue::Text("three".to_string()))), None);
    assert_eq!(asset_type_code(&Some(AssetTypeValue::Other)), None);
    assert_eq!(asset_type_code(&None), None);
}

#[test]
fn asset_class_prefers_data_then_sound() {
    assert_eq!(asset_class(true, true, None, Some("a.wav")), AssetClass::DataSource);
    assert_eq!(asset_class(false, false, Some(3), Some("a.png")), AssetClass::DataSource);
    assert_eq!(asset_class(false, true, None, Some("a.json")), AssetClass::DataSource);
    assert_eq!(asset_class(false, true, None, Some("a.png")), AssetClass::Sound);
    assert_eq!(asset_class(false, false, Some(2), Some("a.OGG")), AssetClass::Sound);
    assert_eq!(asset_class(false, false, None, Some("a.png")), AssetClass::Image);
    assert_eq!(asset_class(false, false, None, None), AssetClass::Image);
}

#[test]
fn asset_source_decodes_base64_payloads() {
    assert_eq!(
        asset_source(None, Some("data:text/plain;base64,aGVsbG8=")),
        AssetSource::Embedded(Some(b"hello".to_vec()))
    );
    // everything after the first comma is the payload
    assert_eq!(
        asset_source(Some("dir/"), Some("data:a;base64,e30=")),
        AssetSource::Embedded(Some(b"{}".to_vec()))
    );
    assert_eq!(
        asset_source(None, Some("data:text/plain;base64,not base64!")),
        AssetSource::Embedded(None)
    );
}

#[test]
fn asset_source_names_files() {
    assert_eq!(
        asset_source(Some("sounds/"), Some("beep.wav")),
        AssetSource::Files { preferred: "sounds/beep.wav".to_string(), fallback: "beep.wav".to_string() }
    );
    assert_eq!(
        asset_source(Some(""), Some("beep.wav")),
        AssetSource::Files { preferred: "beep.wav".to_string(), fallback: "beep.wav".to_string() }
    );
    // a data URI without a base64 payload is read as a file name
    assert_eq!(
        asset_source(None, Some("data:text/plain,hi")),
        AssetSource::Files {
            preferred: "data:text/plain,hi".to_string(),
            fallback: "data:text/plain,hi".to_string()
        }
    );
    assert_eq!(asset_source(Some("x/"), None), AssetSource::Missing);
}

#[test]
fn data_source_record_parses_json() {
    let id = "data_0".to_string();
    let ok = data_source_record(&id, Some("d.json".to_string()), &Some(br#"{"a": [1, 2]}"#.to_vec()));
    assert_eq!(ok.id, "data_0");
    assert_eq!(ok.path, Some("d.json".to_string()));
    assert_eq!(ok.payload, Some(serde_json::from_str::<serde_json::Value>(r#"{"a":[1,2]}"#).unwrap()));
    let bad = data_source_record(&id, None, &Some(b"{not json".to_vec()));
    assert!(bad.payload.is_none());
    let missing = data_source_record(&id, None, &None);
    assert!(missing.payload.is_none());
}

#[test]
fn sound_asset_record_counts_bytes() {
    let id = "snd".to_string();
    assert_eq!(sound_asset_record(&id, None, &Some(vec![1, 2, 3])).byte_len, 3);
    assert_eq!(sound_asset_record(&id, None, &None).byte_len, 0);
}

fn link(ty: u8, r: Option<&str>) -> LayerLink {
    LayerLink { ty, ref_id: r.map(|s| s.to_string()) }
}

fn entry(id: &str, layers: Option<Vec<LayerLink>>) -> AssetEntry {
    AssetEntry { id: id.to_string(), u: None, p: None, t: None, layers }
}

#[test]
fn collect_refs_follows_precompositions() {
    let layers = vec![link(6, Some("snd_a")), link(0, Some("comp_1")), link(4, None)];
    let assets = vec![
        entry("comp_1", Some(vec![link(15, Some("data_x")), link(0, Some("comp_2"))])),
        entry("comp_2", Some(vec![link(6, Some("snd_b")), link(6, Some("snd_a"))])),
        entry("snd_a", None),
    ];
    let (mut audio, mut data) = collect_nonvisual_ref_ids(&layers, &assets).expect("no cycle");
    audio.sort();
    audio.dedup();
    data.sort();
    data.dedup();
    assert_eq!(audio, vec!["snd_a".to_string(), "snd_b".to_string()]);
    assert_eq!(data, vec!["data_x".to_string()]);
}

#[test]
fn collect_refs_reports_self_containing_precomposition() {
    let layers = vec![link(0, Some("loop"))];
    let assets = vec![entry("loop", Some(vec![link(0, Some("loop"))]))];
    assert!(collect_nonvisual_ref_ids(&layers, &assets).is_none());
}

#[test]
fn collect_refs_without_layers_is_empty() {
    let (audio, data) = collect_nonvisual_ref_ids(&vec![], &vec![]).unwrap();
    assert!(audio.is_empty() && data.is_empty());
}

#[test]
fn register_assets_classifies_and_records() {
    let layers = vec![link(6, Some("voice")), link(15, Some("table")), link(2, Some("img"))];
    let mut img = entry("img", None);
    img.p = Some("img_0.png".to_string());
    img.u = Some("images/".to_string());
    let mut voice = entry("voice", None);
    voice.p = Some("voice.bin".to_string());
    let mut table = entry("table", None);
    table.p = Some("table.txt".to_string());
    let mut typed = entry("typed", None);
    typed.t = Some(AssetTypeValue::Text("3".to_string()));
    let mut music = entry("music", None);
    music.p = Some("Music.OGG".to_string());
    let missing = entry("missing", None);
    let assets = vec![img, voice, table, typed, music, missing];
    let bytes = vec![
        Some(vec![0x89, b'P', b'N', b'G']),
        Some(vec![1, 2, 3, 4, 5]),
        Some(b"[1, 2]".to_vec()),
        Some(b"oops".to_vec()),
        None,
        None,
    ];
    let reg = register_assets(&layers, &assets, bytes).expect("no cycle");
    match reg.images.get("img") {
        Some(ImageSource::Data(d)) => assert_eq!(d, &vec![0x89, b'P', b'N', b'G']),
        None => panic!("image missing"),
    }
    assert!(reg.images.get("missing").is_none());
    assert_eq!(reg.images.len(), 1);
    let voice = reg.sound_assets.get("voice").expect("sound");
    assert_eq!(voice.byte_len, 5);
    assert_eq!(voice.path, Some("voice.bin".to_string()));
    assert_eq!(reg.sound_assets.get("music").expect("sound by extension").byte_len, 0);
    assert_eq!(reg.sound_assets.len(), 2);
    let table = reg.data_sources.get("table").expect("data source");
    assert!(table.payload.is_some());
    let typed = reg.data_sources.get("typed").expect("data source by type");
    assert!(typed.payload.is_none());
    assert_eq!(reg.data_sources.len(), 2);
}

#[test]
fn register_assets_later_entry_wins() {
    let assets = vec![entry("a", None), entry("a", None)];
    let reg = register_assets(&vec![], &assets, vec![Some(vec![1]), Some(vec![2])]).unwrap();
    match reg.images.get("a") {
        Some(ImageSource::Data(d)) => assert_eq!(d, &vec![2]),
        None => panic!("image missing"),
    }
    let cyclic = vec![entry("c", Some(vec![link(0, Some("c"))]))];
    assert!(register_assets(&vec![link(0, Some("c"))], &cyclic, vec![None]).is_none());
}

#[test]
fn registry_bindings_and_paths() {
    let layers = vec![link(6, Some("voice")), link(15, Some("table"))];
    let mut voice = entry("voice", None);
    voice.p = Some("voice.wav".to_string());
    voice.u = Some("audio/".to_string());
    let mut table = entry("table", None);
    table.p = Some("table.json".to_string());
    let assets = vec![voice, table];
    let mut reg = register_assets(&layers, &assets, vec![None, Some(br#"{"rows": 3}"#.to_vec())]).unwrap();
    let b = reg.data_binding(Some("Data".to_string()), Some("table".to_string()));
    assert_eq!(b.layer_name, Some("Data".to_string()));
    assert_eq!(b.source_path, Some("table.json".to_string()));
    assert_eq!(b.payload, Some(serde_json::from_str::<serde_json::Value>(r#"{"rows":3}"#).unwrap()));
    let none = reg.data_binding(None, Some("nothing".to_string()));
    assert!(none.source_path.is_none() && none.payload.is_none());
    assert_eq!(reg.sound_path(&Some("voice".to_string())), Some("audio/voice.wav".to_string()));
    assert_eq!(reg.sound_path(&Some("table".to_string())), None);
    assert_eq!(reg.sound_path(&None), None);
    reg.set_asset("table".to_string(), vec![7, 7]);
    match reg.images.get("table") {
        Some(ImageSource::Data(d)) => assert_eq!(d, &vec![7, 7]),
        None => panic!("image missing"),
    }
    assert!(reg.data_sources.get("table").is_some());
}
