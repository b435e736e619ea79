use backend::persistence::{from_group, path_of_group, CacheError, PersistenceCache};

fn paths(cache: &PersistenceCache) -> Vec<String> {
    let mut v: Vec<String> = cache.pending_writes().into_iter().map(|w| w.path).collect();
    v.sort();
    v
}

#[test]
fn read_your_writes() {
    let mut cache = PersistenceCache::new("./.save");
    assert_eq!(
        cache.file_to_read("game1/scores"),
        Some("./.save/game1/scores.save".to_string())
    );
    assert_eq!(cache.save("game1/scores", "high", "100", None), Ok(()));
    assert_eq!(cache.file_to_read("game1/scores"), None);
    assert_eq!(cache.load("game1/scores", "high", None), Ok("100".to_string()));
}

#[test]
fn overwrite_keeps_last_value() {
    let mut cache = PersistenceCache::new("root");
    cache.save("g/a", "k", "1", None).unwrap();
    cache.save("g/a", "k", "2", None).unwrap();
    assert_eq!(cache.load("g/a", "k", None), Ok("2".to_string()));
    assert_eq!(cache.db_cache_size(), 1);
}

#[test]
fn missing_key_is_not_found() {
    let mut cache = PersistenceCache::new("root");
    assert_eq!(cache.load("g/a", "nothing", None), Err(CacheError::NotFound));
    cache.save("g/a", "k", "v", None).unwrap();
    assert_eq!(cache.load("g/a", "other", None), Err(CacheError::NotFound));
}

#[test]
fn stored_file_is_read_once() {
    let mut cache = PersistenceCache::new("root");
    let text = "{\"k\":\"from disk\",\"j\":\"x\"}";
    assert_eq!(cache.load("g/a", "k", Some(text)), Ok("from disk".to_string()));
    assert_eq!(cache.file_to_read("g/a"), None);
    // A cached group is authoritative: another text is ignored.
    assert_eq!(
        cache.load("g/a", "k", Some("{\"k\":\"other\"}")),
        Ok("from disk".to_string())
    );
    assert_eq!(cache.db_cache_size(), 2);
}

#[test]
fn corrupt_file_is_refused() {
    let mut cache = PersistenceCache::new("root");
    assert_eq!(cache.save("g/a", "k", "v", Some("not json")), Err(CacheError::Corrupt));
    assert_eq!(cache.load("g/a", "k", Some("[1, 2]")), Err(CacheError::Corrupt));
    assert!(cache.file_to_read("g/a").is_some());
    assert!(cache.pending_writes().is_empty());
}

#[test]
fn flush_durability() {
    let mut cache = PersistenceCache::new("./.save");
    cache.save("game1/slot", "level", "7", None).unwrap();
    let writes = cache.pending_writes();
    assert_eq!(writes.len(), 1);
    assert_eq!(writes[0].path, "./.save/game1/slot");
    assert_eq!(writes[0].file, "./.save/game1/slot.save");
    assert_eq!(writes[0].contents, "{\"level\":\"7\"}");
    cache.complete_flush(&writes);
    assert!(cache.pending_writes().is_empty());

    let mut restarted = PersistenceCache::new("./.save");
    let file = restarted.file_to_read("game1/slot").unwrap();
    assert_eq!(file, writes[0].file);
    assert_eq!(
        restarted.load("game1/slot", "level", Some(writes[0].contents.as_str())),
        Ok("7".to_string())
    );
}

#[test]
fn dirty_set_precision() {
    let mut cache = PersistenceCache::new("r");
    cache.save("g/a", "k", "1", None).unwrap();
    cache.save("g/b", "k", "2", None).unwrap();
    assert_eq!(paths(&cache), vec!["r/g/a".to_string(), "r/g/b".to_string()]);
    let writes = cache.pending_writes();
    cache.complete_flush(&writes);
    assert!(cache.pending_writes().is_empty());
    cache.save("g/c", "k", "3", None).unwrap();
    assert_eq!(paths(&cache), vec!["r/g/c".to_string()]);
}

#[test]
fn failed_write_stays_dirty() {
    let mut cache = PersistenceCache::new("r");
    cache.save("g/a", "k", "1", None).unwrap();
    cache.save("g/b", "k", "2", None).unwrap();
    let writes: Vec<_> = cache
        .pending_writes()
        .into_iter()
        .filter(|w| w.path == "r/g/a")
        .collect();
    cache.complete_flush(&writes);
    assert_eq!(paths(&cache), vec!["r/g/b".to_string()]);
}

#[test]
fn clear_requires_flush() {
    let mut cache = PersistenceCache::new("r");
    cache.save("g/a", "k", "1", None).unwrap();
    assert_eq!(cache.clear_db(), Err(CacheError::Unflushed));
    assert_eq!(cache.db_cache_size(), 1);
    let writes = cache.pending_writes();
    cache.complete_flush(&writes);
    assert_eq!(cache.clear_db(), Ok(()));
    assert_eq!(cache.db_cache_size(), 0);
    assert!(cache.file_to_read("g/a").is_some());
}

#[test]
fn group_names_split_on_last_slash() {
    assert_eq!(
        from_group("./.save", "abc/saves/slot1"),
        ("./.save/abc/saves".to_string(), "slot1".to_string())
    );
    assert_eq!(
        from_group("./.save", "slot1"),
        ("./.save".to_string(), "slot1".to_string())
    );
    assert_eq!(path_of_group("/home/devcade/.save", "id/x"), "/home/devcade/.save/id/x");
    assert_eq!(path_of_group("r", "ü/é"), "r/ü/é");
}

#[test]
fn error_messages() {
    assert_eq!(CacheError::NotFound.message(), "could not find key in group");
    assert_eq!(CacheError::Corrupt.message(), "save file could not be read");
    assert_eq!(CacheError::Unflushed.message(), "unflushed writes remain");
}
