//! The persistent store and the process-local resolver cache.
use prospero::registry::RoomRegistry;
use prospero::storage::{Credentials, Storage, StorageError};
use prospero::track_info::Metadata;
use prospero::yt_dlp::{Resolver, YtDlp, ENTRY_TTL_MS, REFRESH_TTL_MS};

fn track(url: &str, title: &str) -> YtDlp {
    YtDlp {
        request_url: format!("{url}/media"),
        content_length: None,
        metadata: Metadata {
            title: title.to_string(),
            source_url: url.to_string(),
            thumbnail_url: None,
            duration_sec: Some(100),
        },
    }
}

#[test]
fn storage_test() {
    let mut storage = Storage::new(":memory:").unwrap();

    let guild_id = 101;
    assert!(storage
        .save_credentials(&Credentials {
            guild_id,
            username: "my username".into(),
            password: "my password".into(),
        })
        .is_ok());
    assert_eq!(
        storage.load_credentials(guild_id).unwrap(),
        Credentials {
            guild_id,
            username: "my username".into(),
            password: "my password".into(),
        }
    );

    // store the same username for another guild
    let guild_id = 202;
    assert!(storage
        .save_credentials(&Credentials {
            guild_id,
            username: "my username".into(),
            password: "another password".into(),
        })
        .is_ok());
    assert_eq!(
        storage.load_credentials(guild_id).unwrap(),
        Credentials {
            guild_id,
            username: "my username".into(),
            password: "another password".into(),
        }
    );

    // update the username and password
    assert!(storage
        .save_credentials(&Credentials {
            guild_id,
            username: "another username".into(),
            password: "another password".into(),
        })
        .is_ok());
    assert_eq!(
        storage.load_credentials(guild_id).unwrap(),
        Credentials {
            guild_id,
            username: "another username".into(),
            password: "another password".into(),
        }
    );
}

#[test]
fn spotify_credentials_storage() {
    let mut storage = Storage::new(":memory:").unwrap();

    let first_guild_id = 101;
    assert!(storage
        .save_credentials(&Credentials {
            guild_id: first_guild_id,
            username: "my username".into(),
            password: "my password".into(),
        })
        .is_ok());
    assert_eq!(
        storage.load_credentials(first_guild_id).unwrap(),
        Credentials {
            guild_id: first_guild_id,
            username: "my username".into(),
            password: "my password".into(),
        }
    );

    // store the same username for another guild
    let guild_id = 202;
    assert!(storage
        .save_credentials(&Credentials {
            guild_id,
            username: "my username".into(),
            password: "another password".into(),
        })
        .is_ok());
    assert_eq!(
        storage.load_credentials(guild_id).unwrap(),
        Credentials {
            guild_id,
            username: "my username".into(),
            password: "another password".into(),
        }
    );

    // update the username and password
    assert!(storage
        .save_credentials(&Credentials {
            guild_id,
            username: "another username".into(),
            password: "third password".into(),
        })
        .is_ok());
    assert_eq!(
        storage.load_credentials(guild_id).unwrap(),
        Credentials {
            guild_id,
            username: "another username".into(),
            password: "third password".into(),
        }
    );

    // The first guild should not be affected
    assert_eq!(
        storage.load_credentials(first_guild_id).unwrap(),
        Credentials {
            guild_id: first_guild_id,
            username: "my username".into(),
            password: "my password".into(),
        }
    );

    // Non-existing guild
    assert_eq!(storage.load_credentials(303), Err(StorageError::Database));
}

#[test]
fn yt_dlp_query_cache() {
    let mut storage = Storage::new(":memory:").unwrap();

    assert_eq!(storage.load("query"), None);
    assert_eq!(storage.load_all().unwrap(), Vec::<String>::new());

    assert!(storage.save("query", "webpage_url").is_ok());
    assert_eq!(storage.load("query"), Some("webpage_url".into()));
    assert_eq!(storage.load_all().unwrap(), vec!["webpage_url"]);

    assert_eq!(storage.load("another query"), None);
    assert!(storage.save("another query", "another url").is_ok());
    assert_eq!(storage.load("another query"), Some("another url".into()));
    assert_eq!(storage.load_all().unwrap(), vec!["webpage_url", "another url"]);

    // Update the query: overwrite, not accumulate
    assert!(storage.save("query", "another url").is_ok());
    assert_eq!(storage.load("query"), Some("another url".into()));
    // Duplicate entries should be merged
    assert_eq!(storage.load_all().unwrap(), vec!["another url"]);
}

#[test]
fn cache_resolution_flow() {
    let storage = Storage::new(":memory:").unwrap();
    let mut resolver = Resolver::new(storage);

    // A URL query is its own effective query; free text starts unknown.
    assert_eq!(resolver.effective_query("https://example.com/a"), "https://example.com/a");
    assert_eq!(resolver.effective_query("some song"), "some song");

    // A miss, then a fetch committed at time 1000.
    let fetched = track("https://example.com/a", "Song A");
    assert!(resolver.lookup("https://example.com/a", 1000).is_none());
    assert!(resolver.commit("some song", fetched.clone(), 1000).is_ok());

    // The free-text query now maps to the canonical URL...
    assert_eq!(resolver.effective_query("some song"), "https://example.com/a");
    // ...and the canonical URL hits while fresh,
    assert_eq!(resolver.lookup("https://example.com/a", 2000), Some(&fetched));
    // but not after its validity window has passed.
    assert!(resolver.lookup("https://example.com/a", 1000 + ENTRY_TTL_MS).is_none());
}

#[test]
fn bulk_refresh_drops_failures() {
    // With one of three refreshes failing, exactly the other two survive,
    // whatever the failed URL held before.
    let storage = Storage::new(":memory:").unwrap();
    let mut resolver = Resolver::new(storage);
    resolver.commit("q1", track("https://example.com/1", "One"), 0).unwrap();
    resolver.commit("q2", track("https://example.com/2", "Two"), 0).unwrap();
    resolver.commit("q3", track("https://example.com/3", "Three"), 0).unwrap();
    assert_eq!(resolver.known_urls().len(), 3);

    let results = vec![
        ("https://example.com/1".to_string(), Some(track("https://example.com/1", "One"))),
        ("https://example.com/2".to_string(), None),
        ("https://example.com/3".to_string(), Some(track("https://example.com/3", "Three"))),
    ];
    resolver.apply_refresh(results, 500);
    assert_eq!(resolver.known_urls().len(), 2);
    assert!(resolver.lookup("https://example.com/1", 600).is_some());
    assert!(resolver.lookup("https://example.com/2", 600).is_none());
    assert!(resolver.lookup("https://example.com/3", 600).is_some());

    // The refresh clock restarted: another refresh is not due yet.
    assert!(!resolver.should_refresh(600));
    assert!(resolver.should_refresh(500 + REFRESH_TTL_MS));
}

#[test]
fn room_registry_one_session_per_room() {
    // The handle type is the caller's; a string stands in for a session.
    let mut registry: RoomRegistry<String> = RoomRegistry::new();
    assert!(registry.get(101).is_none());

    registry.insert(101, "first room's session".to_string());
    registry.insert(202, "second room's session".to_string());
    assert_eq!(registry.get(101).map(String::as_str), Some("first room's session"));
    assert_eq!(registry.get(202).map(String::as_str), Some("second room's session"));

    // Tearing one room down hands its session back and spares the other.
    assert_eq!(registry.remove(101), Some("first room's session".to_string()));
    assert!(registry.get(101).is_none());
    assert_eq!(registry.remove(101), None);
    assert_eq!(registry.get(202).map(String::as_str), Some("second room's session"));
}
