use viewview::projection::{meters_projection, DEGREES_PROJECTION};
use viewview::shards::is_shard_file;

#[test]
fn shard_files() {
    assert!(is_shard_file("shard-1.db"));
    assert!(is_shard_file("a.tar.db"));
    assert!(is_shard_file("..db"));
    assert!(!is_shard_file(".db"));
    assert!(!is_shard_file("db"));
    assert!(!is_shard_file("shard.db.bak"));
    assert!(!is_shard_file("shard.dbx"));
    assert!(!is_shard_file(".."));
    assert!(!is_shard_file(""));
}

#[test]
fn projections() {
    assert_eq!(DEGREES_PROJECTION, "+proj=latlong +datum=WGS84 +over");
    assert_eq!(
        meters_projection("51.4545", "-2.5879"),
        "+proj=aeqd +lat_0=51.4545 +lon_0=-2.5879 +datum=WGS84 +over"
    );
}

#[test]
fn shard_files_agree_with_path_extension() {
    for name in [
        "a.db", ".db", "..db", "db", "a.db.", "a..db", "a.DB", "x.tar.db", "a.b.c", "", ".", "..",
        "...", "a.dbb", "é.db",
    ] {
        let by_std = std::path::Path::new(name)
            .extension()
            .is_some_and(|ext| ext == "db");
        assert_eq!(is_shard_file(name), by_std, "{name}");
    }
}
