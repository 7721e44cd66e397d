use patchouli_core::ffi::{
    FfiBoxedSlice, FfiDate, FfiOption, FfiResult, FfiSlice, FfiStr, FfiString, FfiTime,
    InteriorNul, MissingNul,
};
use patchouli_core::index::{is_candidate, is_supported_format, CachedMedia, FileDecision, IndexPass};
use patchouli_core::library::{
    DbLibraryConfig, DbMediaImage, DbMediaMusic, DbPartialLibrary, DbRawLibraryConfig, LibraryConfig,
    LibraryKind, Media as MediaEntry, MediaImage, MediaMusic, PartialLibrary, RawLibraryConfig,
};
use patchouli_core::loader::{
    plugin_dirs, plugin_kind_of, pluglib_version, LoadAction, LoadEvent, LoadStage, PluginLoadError,
    PluginLoader,
};
use patchouli_core::media::{Media, MetadataField, MetadataFieldType, MetadataFieldValue, SqlValue};
use patchouli_core::schema::{
    column_definition, delete_statement, insert_statement, needs_schema_sync, rebuild_statement,
    select_cached_statement, table_ident, PluginKind, PluginRecord,
};
use patchouli_core::text::{join, split};
use patchouli_core::version::Version;

fn v(major: u8, minor: u8, patch: u8) -> Version {
    Version::new(major, minor, patch)
}

#[test]
fn compatibility_is_symmetric_and_excludes_default() {
    let versions = [v(0, 1, 0), v(0, 1, 5), v(0, 2, 0), v(1, 0, 0), v(1, 4, 2), v(2, 0, 0), v(0, 0, 1)];
    for a in versions.iter() {
        for b in versions.iter() {
            assert_eq!(a.is_compatible(b), b.is_compatible(a));
        }
        assert!(!Version::default().is_compatible(a));
        assert!(!a.is_compatible(&Version::default()));
    }
    assert!(!Version::default().is_compatible(&Version::default()));
}

#[test]
fn compatibility_rules() {
    assert!(v(1, 2, 0).is_compatible(&v(1, 3, 0)));
    assert!(!v(1, 2, 0).is_compatible(&v(2, 0, 0)));
    assert!(v(0, 2, 0).is_compatible(&v(0, 2, 7)));
    assert!(!v(0, 2, 0).is_compatible(&v(0, 3, 0)));
    assert!(!v(0, 2, 0).is_compatible(&v(1, 2, 0)));
    assert!(v(0, 0, 1).is_compatible(&v(0, 0, 2)));
}

#[test]
fn version_order() {
    assert_eq!(v(1, 2, 3).compare(&v(1, 2, 3)), std::cmp::Ordering::Equal);
    assert_eq!(v(1, 2, 3).compare(&v(1, 3, 0)), std::cmp::Ordering::Less);
    assert_eq!(v(2, 0, 0).compare(&v(1, 9, 9)), std::cmp::Ordering::Greater);
    assert_eq!(v(1, 2, 4).compare(&v(1, 2, 3)), std::cmp::Ordering::Greater);
}

#[test]
fn version_parsing() {
    assert_eq!(Version::parse("1.2.3"), Ok(v(1, 2, 3)));
    assert_eq!(Version::parse("0.2"), Ok(v(0, 2, 0)));
    assert_eq!(Version::parse("7"), Ok(v(7, 0, 0)));
    assert_eq!(Version::parse("1.2.3.4"), Ok(v(1, 2, 3)));
    assert_eq!(Version::parse("+1.02.255"), Ok(v(1, 2, 255)));
    assert_eq!(Version::parse("1.256.0").map_err(|e| e.part), Err(1));
    assert_eq!(Version::parse("").map_err(|e| e.part), Err(0));
    assert_eq!(Version::parse("1..2").map_err(|e| e.part), Err(1));
    assert_eq!(Version::parse("1.2.x").map_err(|e| e.part), Err(2));
    assert_eq!(Version::parse("-1").map_err(|e| e.part), Err(0));
}

#[test]
fn slice_round_trip() {
    let data = vec![3u32, 1, 4, 1, 5];
    let view = FfiSlice::new(data.as_slice());
    assert_eq!(view.len(), 5);
    assert!(!view.is_empty());
    assert_eq!(view.to_slice(), data.as_slice());
    assert_eq!(view.iter().copied().collect::<Vec<_>>(), data);
    let empty: FfiSlice<'_, u32> = FfiSlice::new(&[]);
    assert!(empty.is_empty());
}

#[test]
fn boxed_slice_round_trip() {
    let boxed: Box<[u8]> = vec![9u8, 8, 7].into_boxed_slice();
    let owned = FfiBoxedSlice::new(boxed);
    assert_eq!(owned.len(), 3);
    assert_eq!(owned.to_slice(), &[9u8, 8, 7][..]);
    assert_eq!(owned.as_slice().to_slice(), &[9u8, 8, 7][..]);
    assert_eq!(owned.into_vec(), vec![9u8, 8, 7]);
    let empty = FfiBoxedSlice::<u8>::from_vec(Vec::new());
    assert!(empty.is_empty());
}

#[test]
fn str_round_trip() {
    let s = FfiStr::new("title\0").ok().unwrap();
    assert_eq!(s.to_str(), "title");
    let t = FfiStr::new("ab\0cd\0").ok().unwrap();
    assert_eq!(t.to_str(), "ab");
    assert_eq!(FfiStr::new("no terminator").err(), Some(MissingNul));
    assert_eq!(FfiStr::new("").err(), Some(MissingNul));
}

#[test]
fn string_round_trip() {
    let s = FfiString::new(String::from("Les Misérables")).ok().unwrap();
    assert_eq!(s.to_str(), "Les Misérables");
    assert_eq!(s.as_str().to_str(), "Les Misérables");
    assert_eq!(
        FfiString::new(String::from("a\0b")).err(),
        Some(InteriorNul { position: 1 })
    );
}

#[test]
fn date_time_round_trip() {
    let d = FfiDate::from_julian_day(2_451_545);
    assert_eq!(d.julian_day(), 2_451_545);
    assert_eq!(FfiDate(5).compare(&FfiDate(7)), std::cmp::Ordering::Less);
    let t = FfiTime::from_hms(23, 59, 58).unwrap();
    assert_eq!(t.as_hms(), (23, 59, 58));
    assert!(FfiTime::from_hms(24, 0, 0).is_none());
    assert!(FfiTime::from_hms(0, 60, 0).is_none());
    assert!(FfiTime::from_hms(0, 0, 60).is_none());
    let u = FfiTime::from_hms(23, 60 - 1, 0).unwrap();
    assert_eq!(u.compare(&t), std::cmp::Ordering::Less);
}

#[test]
fn option_and_result_round_trip() {
    assert_eq!(FfiOption::from_option(Some(4)).into_option(), Some(4));
    assert_eq!(FfiOption::<i32>::from_option(None).into_option(), None);
    assert_eq!(FfiOption::from_option(Some(4)).as_ref(), Some(&4));
    assert_eq!(FfiResult::<i32, ()>::from_result(Ok(3)).into_result(), Ok(3));
    assert_eq!(FfiResult::<i32, ()>::from_result(Err(())).into_result(), Err(()));
}

fn field(name: &'static str, ident: &'static str, t: MetadataFieldType, is_list: bool) -> MetadataField {
    MetadataField {
        name: FfiStr::new(name).ok().unwrap(),
        ident: FfiStr::new(ident).ok().unwrap(),
        field_type: t,
        is_list,
    }
}

fn music() -> Media {
    Media {
        name: FfiStr::new("Music\0").ok().unwrap(),
        ident: FfiStr::new("music\0").ok().unwrap(),
        fields: FfiBoxedSlice::from_vec(vec![
            field("Title\0", "title\0", MetadataFieldType::Text, false),
            field("Artists\0", "artists\0", MetadataFieldType::Text, true),
            field("Track\0", "track\0", MetadataFieldType::Integer, false),
        ]),
    }
}

#[test]
fn sql_types() {
    assert_eq!(MetadataFieldType::Integer.to_sql(), "INTEGER");
    assert_eq!(MetadataFieldType::Boolean.to_sql(), "INTEGER");
    assert_eq!(MetadataFieldType::Real.to_sql(), "REAL");
    assert_eq!(MetadataFieldType::Text.to_sql(), "TEXT");
    assert_eq!(MetadataFieldType::Date.to_sql(), "TEXT");
    assert_eq!(MetadataFieldType::Time.to_sql(), "TEXT");
    assert_eq!(MetadataFieldType::Blob.to_sql(), "BLOB");
}

#[test]
fn descriptor_identifiers() {
    assert!(music().has_unique_idents());
    let dup = Media {
        name: FfiStr::new("X\0").ok().unwrap(),
        ident: FfiStr::new("x\0").ok().unwrap(),
        fields: FfiBoxedSlice::from_vec(vec![
            field("A\0", "a\0", MetadataFieldType::Text, false),
            field("B\0", "a\0", MetadataFieldType::Integer, false),
        ]),
    };
    assert!(!dup.has_unique_idents());
}

#[test]
fn table_statements() {
    let m = music();
    assert_eq!(table_ident(&m), "media_music");
    assert_eq!(
        column_definition(&field("A\0", "artists\0", MetadataFieldType::Text, true)),
        "artists TEXT NOT NULL DEFAULT (json_array())"
    );
    assert_eq!(
        rebuild_statement(&m),
        "DROP TABLE IF EXISTS media_music; CREATE TABLE media_music (path TEXT NOT NULL PRIMARY KEY ON CONFLICT REPLACE,mtime TEXT NOT NULL,title TEXT,artists TEXT NOT NULL DEFAULT (json_array()),track INTEGER) STRICT, WITHOUT ROWID;"
    );
    assert_eq!(
        insert_statement(&m),
        "INSERT INTO media_music(path, mtime, title, artists, track) VALUES (?, ?, ?, ifnull(?, json_array()), ?)"
    );
    assert_eq!(select_cached_statement(&m), "SELECT path, mtime FROM media_music");
    assert_eq!(delete_statement(&m, 2), "DELETE FROM media_music WHERE path IN (?, ?)");
    assert_eq!(delete_statement(&m, 0), "DELETE FROM media_music WHERE path IN ()");
}

fn record(name: &str, version: Version) -> PluginRecord {
    PluginRecord { name: String::from(name), kind: PluginKind::Media, version }
}

#[test]
fn schema_rebuild_gating() {
    let records = vec![record("music", v(1, 2, 0)), record("image", v(0, 3, 1))];
    assert!(!needs_schema_sync(&records, "music", PluginKind::Media, v(1, 3, 0)));
    assert!(needs_schema_sync(&records, "music", PluginKind::Media, v(2, 0, 0)));
    assert!(needs_schema_sync(&records, "video", PluginKind::Media, v(1, 0, 0)));
    assert!(!needs_schema_sync(&records, "image", PluginKind::Media, v(0, 3, 9)));
    assert!(needs_schema_sync(&records, "image", PluginKind::Media, v(0, 4, 0)));
    assert!(needs_schema_sync(&Vec::new(), "music", PluginKind::Media, v(1, 2, 0)));
}

#[test]
fn plugin_kind_names() {
    assert_eq!(PluginKind::parse("media"), Some(PluginKind::Media));
    assert_eq!(PluginKind::parse("Media"), None);
    assert_eq!(PluginKind::Media.name(), "media");
    assert_eq!(plugin_kind_of(Some("media")), Some(PluginKind::Media));
    assert_eq!(plugin_kind_of(Some("so")), None);
    assert_eq!(plugin_kind_of(None), None);
}

fn cached(path: &str, mtime: i64) -> CachedMedia {
    CachedMedia { path: String::from(path), mtime }
}

#[test]
fn index_pass_diff() {
    let mut pass = IndexPass::new(vec![cached("/m/A", 10), cached("/m/B", 10), cached("/m/C", 10)]);
    assert_eq!(pass.check_file(&String::from("/m/A"), 10), FileDecision::Skip);
    assert_eq!(pass.check_file(&String::from("/m/D"), 12), FileDecision::Extract);
    let mut left = pass.remaining();
    left.sort();
    assert_eq!(left, vec![String::from("/m/B"), String::from("/m/C")]);
}

#[test]
fn index_pass_changed_file_is_extracted_and_kept() {
    let mut pass = IndexPass::new(vec![cached("/m/A", 10)]);
    assert_eq!(pass.check_file(&String::from("/m/A"), 11), FileDecision::Extract);
    assert!(pass.remaining().is_empty());
}

#[test]
fn index_pass_second_run_extracts_nothing() {
    let files = [("/m/A", 10i64), ("/m/D", 12)];
    let mut first = IndexPass::new(vec![cached("/m/A", 10), cached("/m/B", 3)]);
    let extracted: Vec<_> = files
        .iter()
        .filter(|(p, m)| first.check_file(&String::from(*p), *m) == FileDecision::Extract)
        .collect();
    assert_eq!(extracted.len(), 1);
    let second_rows: Vec<_> = files.iter().map(|(p, m)| cached(p, *m)).collect();
    let mut second = IndexPass::new(second_rows);
    for (p, m) in files.iter() {
        assert_eq!(second.check_file(&String::from(*p), *m), FileDecision::Skip);
    }
    assert!(second.remaining().is_empty());
}

#[test]
fn index_pass_order_does_not_matter() {
    let rows = || vec![cached("/a", 5), cached("/b", 5), cached("/c", 5)];
    let mut one = IndexPass::new(rows());
    let d1 = one.check_file(&String::from("/a"), 5);
    let d2 = one.check_file(&String::from("/b"), 9);
    let mut two = IndexPass::new(rows());
    let e2 = two.check_file(&String::from("/b"), 9);
    let e1 = two.check_file(&String::from("/a"), 5);
    assert_eq!((d1, d2), (e1, e2));
    assert_eq!(one.remaining(), two.remaining());
}

#[test]
fn candidate_files() {
    let supported = vec![String::from("application/json"), String::from("text/markdown")];
    assert!(is_candidate("data.json", &supported));
    assert!(is_candidate("notes/readme.md", &supported));
    assert!(is_candidate("json", &supported));
    assert!(!is_candidate("folder/.htaccess", &supported));
    assert!(!is_candidate("file.cats", &supported));
    assert!(!is_candidate("", &supported));
    assert!(!is_candidate("script.js", &supported));
    assert!(is_supported_format(Some("text/markdown"), &supported));
    assert!(!is_supported_format(Some("image/png"), &supported));
    assert!(!is_supported_format(None, &supported));
}

#[test]
fn metadata_values_to_sql() {
    assert_eq!(MetadataFieldValue::Integer(-4).to_sql_value(), Some(SqlValue::Integer(-4)));
    assert_eq!(MetadataFieldValue::Boolean(true).to_sql_value(), Some(SqlValue::Integer(1)));
    assert_eq!(MetadataFieldValue::Boolean(false).to_sql_value(), Some(SqlValue::Integer(0)));
    let bits = 1.5f64.to_bits();
    assert_eq!(MetadataFieldValue::Real(bits).to_sql_value(), Some(SqlValue::Real(bits)));
    let text = FfiString::new(String::from("hello")).ok().unwrap();
    assert_eq!(
        MetadataFieldValue::Text(text).to_sql_value(),
        Some(SqlValue::Text(String::from("hello")))
    );
    assert_eq!(
        MetadataFieldValue::Blob(FfiBoxedSlice::from_vec(vec![1u8, 2])).to_sql_value(),
        Some(SqlValue::Blob(vec![1u8, 2]))
    );
    assert_eq!(
        MetadataFieldValue::Date(2_451_545).to_sql_value(),
        Some(SqlValue::Text(String::from("2000-01-01")))
    );
    let t = FfiTime::from_hms(9, 5, 7).unwrap();
    match MetadataFieldValue::Time(t).to_sql_value() {
        Some(SqlValue::Text(s)) => assert!(s.starts_with("09:05:07")),
        other => panic!("unexpected {:?}", other),
    }
    let list = MetadataFieldValue::List(FfiBoxedSlice::from_vec(vec![MetadataFieldValue::Integer(1)]));
    assert_eq!(list.to_sql_value(), None);
}

#[test]
fn library_paths_round_trip() {
    let paths = vec![String::from("/music"), String::from("/home/me/songs")];
    let joined = DbRawLibraryConfig::join_paths(paths.clone());
    assert_eq!(joined, "/music:/home/me/songs");
    assert_eq!(DbRawLibraryConfig::split_paths(joined), paths);
    assert_eq!(DbRawLibraryConfig::split_paths(String::new()), vec![String::new()]);
    assert_eq!(join(&Vec::new(), ":"), "");
    assert_eq!(split("a::b", ':'), vec![String::from("a"), String::new(), String::from("b")]);
}

#[test]
fn library_kinds() {
    assert_eq!(LibraryKind::Image.extensions(), &["jpg", "jpeg", "png"][..]);
    assert_eq!(LibraryKind::Music.extensions(), &["mp3"][..]);
    assert_eq!(LibraryKind::from_code(1), Ok(LibraryKind::Music));
    assert_eq!(LibraryKind::from_code(0), Ok(LibraryKind::Image));
    assert_eq!(LibraryKind::from_code(2), Err(2));
    assert_eq!(LibraryKind::Music.code(), 1);
}

#[test]
fn library_config_conversions() {
    let config = LibraryConfig {
        id: 7,
        name: String::from("Songs"),
        kind: LibraryKind::Music,
        paths: vec![String::from("/a"), String::from("/b")],
    };
    let db = DbLibraryConfig::from_config(config.clone());
    assert_eq!(db.id, 7);
    assert_eq!(db.kind, 1);
    assert_eq!(db.paths, "/a:/b");
    let back = LibraryConfig::try_from_db(db.clone()).ok().unwrap();
    assert_eq!(back.paths, config.paths);
    assert_eq!(back.kind, LibraryKind::Music);
    let raw = RawLibraryConfig::from_config(config.clone());
    let db_raw = DbRawLibraryConfig::from_raw(raw);
    assert_eq!(db_raw.paths, "/a:/b");
    let raw_back = RawLibraryConfig::try_from_db(db_raw).ok().unwrap();
    assert_eq!(raw_back.name, "Songs");
    let partial = PartialLibrary::from_config(config);
    let db_partial = DbPartialLibrary::from_partial(partial);
    assert_eq!(db_partial.kind, 1);
    assert_eq!(PartialLibrary::try_from_db(db_partial).ok().unwrap().id, 7);
    let bad = DbPartialLibrary { id: 1, name: String::from("x"), kind: 5 };
    assert_eq!(PartialLibrary::try_from_db(bad).err(), Some(5));
    assert_eq!(DbPartialLibrary::from_db_config(db).id, 7);
}

#[test]
fn media_entries() {
    let image = MediaImage { id: 3, title: String::from("Sunset") };
    assert_eq!(image.title(), "Sunset");
    let db = DbMediaImage::from_media(image);
    assert_eq!(db.id, 3);
    assert_eq!(MediaImage::from_db(db).title, "Sunset");
    let track = MediaMusic {
        id: 4,
        title: String::from("Song"),
        artist: Some(String::from("Band")),
        album: None,
        track: Some(2),
    };
    assert_eq!(MediaEntry::title(&track), "Song");
    let db = DbMediaMusic::from_media(track);
    assert_eq!(db.track, Some(2));
    let back = MediaMusic::from_db(db);
    assert_eq!(back.track, Some(2));
    assert_eq!(back.artist, Some(String::from("Band")));
}

#[test]
fn plugin_search_dirs() {
    let dirs = plugin_dirs(
        Some("/opt/app"),
        Some("/home/me/.local/share"),
        &vec![String::from("/usr/local/share"), String::from("/usr/share")],
        "server",
    );
    assert_eq!(
        dirs,
        vec![
            String::from("/opt/app/plugins"),
            String::from("/home/me/.local/share/server/plugins"),
            String::from("/usr/local/share/server/plugins"),
            String::from("/usr/share/server/plugins"),
        ]
    );
    assert!(plugin_dirs(None, None, &Vec::new(), "server").is_empty());
}

fn run(loader: &mut PluginLoader, events: Vec<LoadEvent>) -> LoadAction {
    let mut last = LoadAction::Accept;
    for e in events {
        last = loader.step(e);
    }
    last
}

#[test]
fn loader_accepts_valid_plugin() {
    let mut l = PluginLoader::new(String::from("music"));
    assert!(matches!(l.step(LoadEvent::Opened), LoadAction::ReadAbiVersion));
    assert!(matches!(l.step(LoadEvent::AbiVersion(pluglib_version())), LoadAction::CallPluginVersion));
    assert!(matches!(l.step(LoadEvent::PluginVersion(v(1, 0, 0))), LoadAction::CallDescribeMedia));
    assert!(matches!(l.step(LoadEvent::Described), LoadAction::ResolveEntryPoints));
    assert!(matches!(l.step(LoadEvent::EntryPointsResolved), LoadAction::Accept));
    assert_eq!(l.stage(), LoadStage::Loaded);
    assert_eq!(l.version(), Some(v(1, 0, 0)));
    assert_eq!(l.name(), "music");
}

#[test]
fn loader_rejects_missing_extract_metadata_and_others_still_load() {
    let mut bad = PluginLoader::new(String::from("broken"));
    let action = run(
        &mut bad,
        vec![
            LoadEvent::Opened,
            LoadEvent::AbiVersion(pluglib_version()),
            LoadEvent::PluginVersion(v(1, 0, 0)),
            LoadEvent::Described,
            LoadEvent::Failed(String::from("undefined symbol: extract_metadata")),
        ],
    );
    match action {
        LoadAction::Reject(PluginLoadError::LibLoading(m)) => assert!(m.contains("extract_metadata")),
        other => panic!("unexpected {:?}", other),
    }
    assert_eq!(bad.stage(), LoadStage::Rejected);
    let mut good = PluginLoader::new(String::from("music"));
    let action = run(
        &mut good,
        vec![
            LoadEvent::Opened,
            LoadEvent::AbiVersion(pluglib_version()),
            LoadEvent::PluginVersion(v(1, 0, 0)),
            LoadEvent::Described,
            LoadEvent::EntryPointsResolved,
        ],
    );
    assert!(matches!(action, LoadAction::Accept));
}

#[test]
fn loader_rejects_incompatible_interface_before_any_call() {
    let mut l = PluginLoader::new(String::from("old"));
    l.step(LoadEvent::Opened);
    match l.step(LoadEvent::AbiVersion(v(0, 1, 0))) {
        LoadAction::Reject(PluginLoadError::IncompatibleLibVersions { kind, name, plugin }) => {
            assert_eq!(kind, PluginKind::Media);
            assert_eq!(name, "old");
            assert_eq!(plugin, v(0, 1, 0));
        }
        other => panic!("unexpected {:?}", other),
    }
    assert!(matches!(l.step(LoadEvent::PluginVersion(v(1, 0, 0))), LoadAction::Reject(_)));
    assert_eq!(l.stage(), LoadStage::Rejected);
    let mut unset = PluginLoader::new(String::from("unset"));
    unset.step(LoadEvent::Opened);
    assert!(matches!(unset.step(LoadEvent::AbiVersion(Version::default())), LoadAction::Reject(_)));
}

#[test]
fn loader_open_failure_and_out_of_order_events() {
    let mut l = PluginLoader::new(String::from("x"));
    assert!(matches!(
        l.step(LoadEvent::Failed(String::from("cannot open"))),
        LoadAction::Reject(PluginLoadError::LibLoading(_))
    ));
    let mut m = PluginLoader::new(String::from("y"));
    assert!(matches!(
        m.step(LoadEvent::Described),
        LoadAction::Reject(PluginLoadError::UnexpectedEvent)
    ));
}
