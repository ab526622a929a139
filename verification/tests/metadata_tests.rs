//! Track metadata: rendering, assembly from the downloader's answer and the
//! remote catalogue's answer, and the voice-membership decisions.
use prospero::events::{bot_left_alone, classify_transition, VoiceOccupant, VoiceTransition};
use prospero::spotify::{collect_tracks, extract_metadata, Cover, Track, TrackData};
use prospero::spotify_id::parse_spotify_id;
use prospero::track_info::{Metadata, TrackInfo};
use prospero::yt_dlp::{command_args, from_output, DownloaderOutput};

#[test]
fn test_track_info_display() {
    assert_eq!(
        TrackInfo::new(
            Metadata {
                title: "Test".into(),
                source_url: "https://example.com".into(),
                thumbnail_url: None,
                duration_sec: Some(123),
            },
            "TestUser".into(),
        )
        .to_markdown(),
        "[Test](https://example.com) 2:03"
    );

    // No duration
    assert_eq!(
        TrackInfo::new(
            Metadata {
                title: "Test".into(),
                source_url: "https://example.com".into(),
                thumbnail_url: None,
                duration_sec: None,
            },
            "TestUser".into(),
        )
        .to_markdown(),
        "[Test](https://example.com)"
    );

    // multi-byte characters in name
    assert_eq!(
        TrackInfo::new(
            Metadata {
                title: "Нейромонах Феофан — Притоптать | Neuromonakh Feofan".into(),
                source_url: "https://www.youtube.com/watch?v=HNpLuXOg7xQ".into(),
                thumbnail_url: None,
                duration_sec: Some(210),
            },
            "TestUser".into(),
        )
        .to_markdown(),
        "[Нейромонах Феофан — Притоптать | Neuromonakh Feofan](https://www.youtube.com/watch?v=HNpLuXOg7xQ) 3:30"
    );
}

#[test]
fn added_by_footer() {
    let info = TrackInfo::new(
        Metadata {
            title: "Test".into(),
            source_url: "https://example.com".into(),
            thumbnail_url: None,
            duration_sec: None,
        },
        "TestUser".into(),
    );
    assert_eq!(info.added_by_line(), "Added by TestUser");
}

#[test]
fn downloader_output_becomes_descriptor() {
    // A URL query keeps itself as the source URL; the title falls back to
    // the query when the site reports none; a zero duration counts as none.
    let out = DownloaderOutput {
        title: None,
        webpage_url: Some("https://example.com/page".into()),
        thumbnail: Some("https://example.com/t.jpg".into()),
        duration_sec: Some(212),
        filesize: Some(1000),
        url: "https://example.com/media".into(),
    };
    let resolved = from_output("https://example.com/page?x=1", out);
    assert_eq!(resolved.metadata.title, "https://example.com/page?x=1");
    assert_eq!(resolved.metadata.source_url, "https://example.com/page?x=1");
    assert_eq!(resolved.metadata.duration_sec, Some(212));
    assert_eq!(resolved.request_url, "https://example.com/media");
    assert_eq!(resolved.content_length, Some(1000));

    // Free text takes the reported page URL and title.
    let out = DownloaderOutput {
        title: Some("A Song".into()),
        webpage_url: Some("https://example.com/page".into()),
        thumbnail: None,
        duration_sec: Some(0),
        filesize: None,
        url: "https://example.com/media".into(),
    };
    let resolved = from_output("a song", out);
    assert_eq!(resolved.metadata.title, "A Song");
    assert_eq!(resolved.metadata.source_url, "https://example.com/page");
    assert_eq!(resolved.metadata.duration_sec, None);

    // Free text without a reported page URL falls back to the search page.
    let out = DownloaderOutput {
        title: Some("A Song".into()),
        webpage_url: None,
        thumbnail: None,
        duration_sec: None,
        filesize: None,
        url: "https://example.com/media".into(),
    };
    let resolved = from_output("a song", out);
    assert_eq!(
        resolved.metadata.source_url,
        "https://www.youtube.com/results?search_query=a song"
    );
}

#[test]
fn downloader_command_line() {
    let args = command_args("притоптать");
    assert_eq!(
        args,
        vec![
            "притоптать",
            "-j",
            "-f",
            "ba[abr>0][vcodec=none]/best",
            "--no-playlist",
            "--default-search",
            "ytsearch",
        ]
    );
}

#[test]
fn catalogue_answer_becomes_metadata() {
    let id = parse_spotify_id("spotify:track:6rqhFgbbKwnb9MLmUQDhG6").unwrap();
    let data = TrackData {
        name: "Breathe".into(),
        artist: Some("Pink Floyd".into()),
        duration_ms: 169534,
        covers: vec![
            Cover { is_default_size: false, file_id_hex: "smallcover".into() },
            Cover { is_default_size: true, file_id_hex: "defaultcover".into() },
        ],
    };
    let metadata = extract_metadata(&id, &data);
    assert_eq!(metadata.title, "Pink Floyd - Breathe");
    assert_eq!(
        metadata.source_url,
        "https://open.spotify.com/track/6rqhFgbbKwnb9MLmUQDhG6"
    );
    assert_eq!(
        metadata.thumbnail_url.as_deref(),
        Some("https://i.scdn.co/image/defaultcover")
    );
    assert_eq!(metadata.duration_sec, Some(169));

    // Without a default-size cover the first one is shown; without an artist
    // the title keeps the separator, as the source formats it.
    let data = TrackData {
        name: "Breathe".into(),
        artist: None,
        duration_ms: 500,
        covers: vec![Cover { is_default_size: false, file_id_hex: "firstcover".into() }],
    };
    let metadata = extract_metadata(&id, &data);
    assert_eq!(metadata.title, " - Breathe");
    assert_eq!(
        metadata.thumbnail_url.as_deref(),
        Some("https://i.scdn.co/image/firstcover")
    );
    // A sub-second duration rounds down to absent.
    assert_eq!(metadata.duration_sec, None);
}

#[test]
fn failed_member_lookups_are_dropped() {
    let id = parse_spotify_id("spotify:track:6rqhFgbbKwnb9MLmUQDhG6").unwrap();
    let track = |title: &str| Track {
        id,
        metadata: Metadata {
            title: title.into(),
            source_url: "https://example.com".into(),
            thumbnail_url: None,
            duration_sec: None,
        },
    };
    let collected = collect_tracks(vec![
        Some(track("one")),
        None,
        Some(track("two")),
        None,
        Some(track("three")),
    ]);
    let titles: Vec<&str> = collected.iter().map(|t| t.metadata.title.as_str()).collect();
    assert_eq!(titles, vec!["one", "two", "three"]);
}

#[test]
fn voice_transitions_classify() {
    assert_eq!(
        classify_transition(None, Some((7, 42))),
        VoiceTransition::Joined { guild: 7, channel: 42 }
    );
    assert_eq!(
        classify_transition(Some((7, 42)), Some((7, 43))),
        VoiceTransition::Moved { guild: 7, from: 42, to: 43 }
    );
    assert_eq!(
        classify_transition(Some((7, 42)), None),
        VoiceTransition::Left { guild: 7 }
    );
    // Same channel (a mute/deafen artifact) and cross-room pairs are ignored.
    assert_eq!(classify_transition(Some((7, 42)), Some((7, 42))), VoiceTransition::Ignored);
    assert_eq!(classify_transition(Some((7, 42)), Some((8, 42))), VoiceTransition::Ignored);
    assert_eq!(classify_transition(None, None), VoiceTransition::Ignored);
}

#[test]
fn alone_check_counts_humans_only() {
    let bot_channel = Some(42);
    let states = vec![
        VoiceOccupant { channel: Some(42), is_bot: true },
        VoiceOccupant { channel: Some(43), is_bot: false },
    ];
    assert!(bot_left_alone(&states, bot_channel));
    let states = vec![
        VoiceOccupant { channel: Some(42), is_bot: true },
        VoiceOccupant { channel: Some(42), is_bot: false },
    ];
    assert!(!bot_left_alone(&states, bot_channel));
}
