//! The resolver chain: canonical identifiers, live/podcast queries, routing.
use prospero::chain::{nothing_found_reply, route, Route};
use prospero::radiot::{
    classify, episode_api_url, episode_audio_url, live_stream_podcast, podcast_from_api,
    RadioTQuery,
};
use prospero::spotify_id::{parse_spotify_id, resolve, to_uri, to_url, ItemType, ResolveError};

#[test]
fn parse_spotify_id_test() {
    // Valid native-scheme URIs
    let track = parse_spotify_id("spotify:track:6rqhFgbbKwnb9MLmUQDhG6").unwrap();
    assert_eq!(track.item_type, ItemType::Track);
    let album = parse_spotify_id("spotify:album:6G9fHYDCoyEErUkHrFYfs4").unwrap();
    assert_eq!(album.item_type, ItemType::Album);
    let playlist = parse_spotify_id("spotify:playlist:37i9dQZF1DXcBWIGoYBM5M").unwrap();
    assert_eq!(playlist.item_type, ItemType::Playlist);
    let show = parse_spotify_id("spotify:show:6bdZFtHJdaa1mGUa7LfbPZ").unwrap();
    assert_eq!(show.item_type, ItemType::Show);

    // Valid web URLs parse to the same identifiers
    assert_eq!(
        parse_spotify_id("https://open.spotify.com/track/6rqhFgbbKwnb9MLmUQDhG6"),
        Some(track)
    );
    assert_eq!(
        parse_spotify_id("https://open.spotify.com/album/6G9fHYDCoyEErUkHrFYfs4"),
        Some(album)
    );
    assert_eq!(
        parse_spotify_id("https://open.spotify.com/playlist/37i9dQZF1DXcBWIGoYBM5M"),
        Some(playlist)
    );
    assert_eq!(
        parse_spotify_id("https://open.spotify.com/show/6bdZFtHJdaa1mGUa7LfbPZ"),
        Some(show)
    );

    // URLs from "Copy link to the track", with a query string
    assert_eq!(
        parse_spotify_id("https://open.spotify.com/track/0X0q97XtaZHwJsYiDqyxWC?si=6647b40eba1743fe"),
        parse_spotify_id("spotify:track:0X0q97XtaZHwJsYiDqyxWC")
    );
    assert!(parse_spotify_id("spotify:track:0X0q97XtaZHwJsYiDqyxWC").is_some());
    assert_eq!(
        parse_spotify_id("https://open.spotify.com/album/6kUgTLymqtTyWUIKbmTMyf?si=e27fa52d985644d3"),
        parse_spotify_id("spotify:album:6kUgTLymqtTyWUIKbmTMyf")
    );
    assert!(parse_spotify_id("spotify:album:6kUgTLymqtTyWUIKbmTMyf").is_some());
    assert_eq!(
        parse_spotify_id(
            "https://open.spotify.com/playlist/77RvyLiqmUimojxq3vg6mY?si=db83d5eafb0643ea"
        ),
        parse_spotify_id("spotify:playlist:77RvyLiqmUimojxq3vg6mY")
    );
    assert!(parse_spotify_id("spotify:playlist:77RvyLiqmUimojxq3vg6mY").is_some());
    assert_eq!(
        parse_spotify_id("https://open.spotify.com/show/6bdZFtHJdaa1mGUa7LfbPZ?si=aedb61f9fa6f4c30"),
        Some(show)
    );

    // An unknown item type still parses, as the unknown kind
    let unknown = parse_spotify_id("spotify:unknown_type:37i9dQZF1DXcBWIGoYBM5M").unwrap();
    assert_eq!(unknown.item_type, ItemType::Unknown);
    assert_eq!(
        parse_spotify_id("spotify:unknown:37i9dQZF1DXcBWIGoYBM5M"),
        Some(unknown)
    );
    let unknown_url =
        parse_spotify_id("https://open.spotify.com/unknown_type/6G9fHYDCoyEErUkHrFYfs4").unwrap();
    assert_eq!(unknown_url.item_type, ItemType::Unknown);
    assert_eq!(
        parse_spotify_id("spotify:unknown:6G9fHYDCoyEErUkHrFYfs4"),
        Some(unknown_url)
    );
    assert_eq!(
        parse_spotify_id("https://open.spotify.com/blablabla/6bdZFtHJdaa1mGUa7LfbPZ"),
        parse_spotify_id("spotify:unknown:6bdZFtHJdaa1mGUa7LfbPZ")
    );
    assert!(parse_spotify_id("spotify:unknown:6bdZFtHJdaa1mGUa7LfbPZ").is_some());

    let invalid_queries = [
        // invalid native-scheme URIs
        "spotify:track:invalid",
        "spotify:track:123",
        "spotify:album:invalid",
        "spotify:playlist:invalid",
        // invalid web URLs
        "https://open.spotify.com/track/invalid",
        "https://open.spotify.com/album/invalid",
        "https://open.spotify.com/playlist/invalid",
        // not canonical identifiers at all
        "https://open.spoti.fy/track/6G9fHYDCoyEErUkHrFYfs4",
        "https://www.youtube.com/watch?v=HnL5lQXuv9M",
        "my random raw text query",
        "schema:track:6G9fHYDCoyEErUkHrFYfs4",
    ];
    for id in &invalid_queries {
        assert_eq!(parse_spotify_id(id), None, "Failed at {id}");
    }
}

#[test]
fn query_resolution_test() {
    assert_eq!(
        resolve("spotify:track:6rqhFgbbKwnb9MLmUQDhG6").unwrap().unwrap(),
        parse_spotify_id("spotify:track:6rqhFgbbKwnb9MLmUQDhG6").unwrap()
    );
    assert_eq!(
        resolve("spotify:album:6G9fHYDCoyEErUkHrFYfs4").unwrap().unwrap(),
        parse_spotify_id("spotify:album:6G9fHYDCoyEErUkHrFYfs4").unwrap()
    );
    assert_eq!(
        resolve("spotify:playlist:37i9dQZF1DXcBWIGoYBM5M").unwrap().unwrap(),
        parse_spotify_id("spotify:playlist:37i9dQZF1DXcBWIGoYBM5M").unwrap()
    );
    assert_eq!(
        resolve("https://open.spotify.com/track/6rqhFgbbKwnb9MLmUQDhG6").unwrap().unwrap(),
        parse_spotify_id("spotify:track:6rqhFgbbKwnb9MLmUQDhG6").unwrap()
    );
    assert_eq!(
        resolve("https://open.spotify.com/album/6G9fHYDCoyEErUkHrFYfs4").unwrap().unwrap(),
        parse_spotify_id("spotify:album:6G9fHYDCoyEErUkHrFYfs4").unwrap()
    );
    assert_eq!(
        resolve("https://open.spotify.com/playlist/37i9dQZF1DXcBWIGoYBM5M").unwrap().unwrap(),
        parse_spotify_id("spotify:playlist:37i9dQZF1DXcBWIGoYBM5M").unwrap()
    );

    // not matched as canonical identifiers at all
    assert!(resolve("https://www.youtube.com/watch?v=HnL5lQXuv9M").is_none());
    assert!(resolve("my random raw text query").is_none());
    assert!(resolve("schema:track:6G9fHYDCoyEErUkHrFYfs4").is_none());

    // invalid native-scheme URIs
    assert!(resolve("spotify:track:invalid").unwrap().is_err());
    assert!(resolve("spotify:album:invalid").unwrap().is_err());
    assert!(resolve("spotify:playlist:invalid").unwrap().is_err());
    assert!(resolve("spotify:unknown_type:37i9dQZF1DXcBWIGoYBM5M").unwrap().is_err());
    // invalid web URLs
    assert!(resolve("https://open.spotify.com/track/invalid").unwrap().is_err());
    assert!(resolve("https://open.spotify.com/album/invalid").unwrap().is_err());
    assert!(resolve("https://open.spotify.com/playlist/invalid").unwrap().is_err());
    assert!(resolve("https://open.spotify.com/unknown_type/6G9fHYDCoyEErUkHrFYfs4")
        .unwrap()
        .is_err());
}

#[test]
fn resolve_error_kinds() {
    assert_eq!(
        resolve("spotify:track:invalid"),
        Some(Err(ResolveError::InvalidId))
    );
    assert_eq!(
        resolve("spotify:show:6bdZFtHJdaa1mGUa7LfbPZ"),
        Some(Err(ResolveError::UnsupportedItemType))
    );
    assert_eq!(
        resolve("spotify:artist:0kq4QvLGV5t1ZoE6ittrLQ"),
        Some(Err(ResolveError::UnsupportedItemType))
    );
}

#[test]
fn url_round_trip() {
    // Printing any parsed identifier as a URL and parsing it again gives the
    // same identifier, and the printed forms are the canonical ones.
    let id = parse_spotify_id("spotify:track:6rqhFgbbKwnb9MLmUQDhG6").unwrap();
    assert_eq!(to_uri(&id), "spotify:track:6rqhFgbbKwnb9MLmUQDhG6");
    assert_eq!(
        to_url(&id),
        "https://open.spotify.com/track/6rqhFgbbKwnb9MLmUQDhG6"
    );
    assert_eq!(parse_spotify_id(&to_url(&id)), Some(id));
    assert_eq!(parse_spotify_id(&to_uri(&id)), Some(id));

    let show = parse_spotify_id("https://open.spotify.com/show/6bdZFtHJdaa1mGUa7LfbPZ").unwrap();
    assert_eq!(parse_spotify_id(&to_url(&show)), Some(show));
}

#[test]
fn live_stream_aliases_recognized() {
    let queries = [
        "https://stream.radio-t.com/",
        "rt",
        "рт",
        "radio-t",
        "радио-т",
    ];
    for query in queries {
        assert_eq!(classify(query), RadioTQuery::Live, "Failed at {query}");
    }
    let live = live_stream_podcast();
    assert_eq!(live.audio_url, "https://stream.radio-t.com/");
    assert_eq!(live.metadata.title, "Radio-T Online");
    assert_eq!(live.metadata.source_url, "https://radio-t.com/");
    assert_eq!(
        live.metadata.thumbnail_url.as_deref(),
        Some("https://radio-t.com/build/images/logo-icon.svg")
    );
    assert_eq!(live.metadata.duration_sec, None);
}

#[test]
fn episode_queries_recognized() {
    let queries = [
        "https://cdn.radio-t.com/rt_podcast912.mp3",
        "rt912",
        "rt 912",
        "рт912",
        "рт 912",
        "radio-t 912",
        "радио-т 912",
    ];
    for query in queries {
        assert_eq!(
            classify(query),
            RadioTQuery::Episode(912),
            "Failed to resolve query: {}",
            query
        );
    }
    assert_eq!(
        episode_api_url(912),
        "https://radio-t.com/site-api/podcast/912"
    );
    assert_eq!(
        episode_audio_url(912),
        "https://cdn.radio-t.com/rt_podcast912.mp3"
    );
    // The per-episode audio URL itself parses back to the episode.
    assert_eq!(classify(&episode_audio_url(912)), RadioTQuery::Episode(912));

    let podcast = podcast_from_api(
        "Радио-Т 912".to_string(),
        "https://radio-t.com/p/2024/01/01/podcast-912/".to_string(),
        "https://radio-t.com/images/radio-t/rt912.jpg".to_string(),
        "http://cdn.radio-t.com/rt_podcast912.mp3".to_string(),
    );
    assert_eq!(podcast.metadata.title, "Радио-Т 912");
    assert!(podcast.metadata.source_url.ends_with("/podcast-912/"));
    assert_eq!(
        podcast.metadata.thumbnail_url.as_deref(),
        Some("https://radio-t.com/images/radio-t/rt912.jpg")
    );
    assert_eq!(podcast.audio_url, "http://cdn.radio-t.com/rt_podcast912.mp3");
}

#[test]
fn unrecognized_queries_rejected() {
    let queries = [
        "my random query",
        "https://www.youtube.com/watch?v=wyaWZYM9Oa8",
        "invalid",
        "rt999999",
        "рт999999",
        "radio-t 999999",
        "радио-т 999999",
    ];
    for query in queries {
        assert_eq!(
            classify(query),
            RadioTQuery::NotRecognized,
            "Failed at {query}"
        );
    }
}

#[test]
fn garbage_routes_to_downloader() {
    // A query no format matcher recognizes falls through every resolver to
    // the generic downloader; when that too finds nothing, the chain reports
    // "nothing found".
    for query in ["my random raw text query", "invalid", "schema:track:6G9fHYDCoyEErUkHrFYfs4"] {
        assert_eq!(parse_spotify_id(query), None);
        assert_eq!(classify(query), RadioTQuery::NotRecognized);
        assert_eq!(route(query), Route::Downloader);
    }
    assert_eq!(
        nothing_found_reply("my random raw text query"),
        "Found nothing for 'my random raw text query'. Please try something else"
    );
}

#[test]
fn recognized_queries_route_to_their_resolver() {
    let id = parse_spotify_id("spotify:track:6rqhFgbbKwnb9MLmUQDhG6").unwrap();
    assert_eq!(route("spotify:track:6rqhFgbbKwnb9MLmUQDhG6"), Route::CanonicalId(id));
    assert_eq!(route("rt"), Route::LivePodcast(RadioTQuery::Live));
    assert_eq!(route("rt912"), Route::LivePodcast(RadioTQuery::Episode(912)));
    // A URL that is not canonical still goes to the downloader.
    assert_eq!(
        route("https://www.youtube.com/watch?v=HnL5lQXuv9M"),
        Route::Downloader
    );
}
