use jambot::embeds::{Reply, TrackMeta};
use jambot::session::{validate_voice_channel, PlayOutcome, Sessions};

fn track(title: &str, url: &str, duration_secs: u64) -> TrackMeta {
    TrackMeta {
        title: title.to_string(),
        source_url: url.to_string(),
        duration_secs,
        thumbnail: None,
    }
}

const GUILD: u64 = 11;
const CHANNEL: u64 = 22;

#[test]
fn play_without_session_creates_one_session_and_one_entry() {
    let mut s = Sessions::new();
    assert_eq!(s.count(), 0);
    assert!(!s.contains(GUILD));
    let r = s.play(GUILD, Some(CHANNEL), Some(track("a", "ua", 10)), 0);
    assert!(matches!(r, PlayOutcome::Queued { .. }));
    assert_eq!(s.count(), 1);
    assert!(s.contains(GUILD));
    assert_eq!(s.queue_len(GUILD), 1);
}

#[test]
fn plays_accumulate_in_call_order() {
    let mut s = Sessions::new();
    s.play(GUILD, Some(CHANNEL), Some(track("a", "ua", 10)), 0);
    s.play(GUILD, Some(CHANNEL), Some(track("b", "ub", 20)), 0);
    s.play(GUILD, Some(CHANNEL), Some(track("c", "uc", 30)), 0);
    assert_eq!(s.queue_len(GUILD), 3);
    let listing = s.queue(GUILD);
    assert_eq!(
        listing.description.as_deref(),
        Some("1. **[a](ua)**\n2. **[b](ub)**\n3. **[c](uc)**\n")
    );
    assert_eq!(listing.title.as_deref(), Some("Songs queued up"));
    assert_eq!(listing.color, 0xA877C8);
}

#[test]
fn skip_with_empty_queue_changes_nothing() {
    let mut s = Sessions::new();
    s.join(GUILD, Some(CHANNEL));
    assert_eq!(s.queue_len(GUILD), 0);
    let skipped = s.skip(GUILD);
    assert!(!skipped);
    assert_eq!(s.queue_len(GUILD), 0);
    assert_eq!(s.count(), 1);
    assert!(s.contains(GUILD));
}

#[test]
fn skip_drops_the_playing_track() {
    let mut s = Sessions::new();
    s.play(GUILD, Some(CHANNEL), Some(track("a", "ua", 10)), 0);
    s.play(GUILD, Some(CHANNEL), Some(track("b", "ub", 20)), 0);
    let skipped = s.skip(GUILD);
    assert!(skipped);
    assert_eq!(s.queue_len(GUILD), 1);
    let now = s.current(GUILD, 0);
    assert_eq!(now.description.as_deref(), Some("Now playing: **[b](ub)**"));
}

#[test]
fn leave_without_session_reports_and_mutates_nothing() {
    let mut s = Sessions::new();
    s.join(GUILD, Some(CHANNEL));
    let r = s.leave(77);
    match r {
        Reply::Text(m) => assert_eq!(m, "I'm not in a voice channel"),
        Reply::EmbedMsg(_) => panic!("expected a text reply"),
    }
    assert_eq!(s.count(), 1);
    assert!(s.contains(GUILD));
    assert!(!s.contains(77));
}

#[test]
fn leave_tears_the_session_down() {
    let mut s = Sessions::new();
    s.play(GUILD, Some(CHANNEL), Some(track("a", "ua", 10)), 0);
    let r = s.leave(GUILD);
    match r {
        Reply::Text(m) => assert_eq!(m, "Bye \u{1F44B}"),
        Reply::EmbedMsg(_) => panic!("expected a text reply"),
    }
    assert!(!s.contains(GUILD));
    assert_eq!(s.count(), 0);
}

#[test]
fn join_needs_a_voice_channel() {
    let mut s = Sessions::new();
    let r = s.join(GUILD, None);
    match r {
        Reply::Text(m) => {
            assert_eq!(m, "You have to be in a voice channel to execute commands!")
        },
        Reply::EmbedMsg(_) => panic!("expected a text reply"),
    }
    assert_eq!(s.count(), 0);
}

#[test]
fn join_greets_and_connects() {
    let mut s = Sessions::new();
    let r = s.join(GUILD, Some(CHANNEL));
    match r {
        Reply::Text(m) => assert_eq!(m, "Let's jam!"),
        Reply::EmbedMsg(_) => panic!("expected a text reply"),
    }
    assert!(s.contains(GUILD));
    assert_eq!(s.count(), 1);
}

#[test]
fn play_needs_a_voice_channel() {
    let mut s = Sessions::new();
    let r = s.play(GUILD, None, Some(track("a", "ua", 10)), 0);
    match r {
        PlayOutcome::NotInVoice(m) => {
            assert_eq!(m, "You have to be in a voice channel to execute commands!")
        },
        _ => panic!("expected the not-in-voice outcome"),
    }
    assert_eq!(s.count(), 0);
}

#[test]
fn failed_source_is_reported_and_queues_nothing() {
    let mut s = Sessions::new();
    let r = s.play(GUILD, Some(CHANNEL), None, 0);
    match r {
        PlayOutcome::SourceFailed(m) => {
            assert_eq!(m, "An error occurred while constructing the source")
        },
        _ => panic!("expected the source-failed outcome"),
    }
    assert!(s.contains(GUILD));
    assert_eq!(s.queue_len(GUILD), 0);
}

#[test]
fn first_play_announces_and_starts_playing() {
    let mut s = Sessions::new();
    let r = s.play(GUILD, Some(CHANNEL), Some(track("a", "ua", 125)), 0);
    match r {
        PlayOutcome::Queued { announcement, now_playing } => {
            assert_eq!(announcement.title.as_deref(), Some("New song queued up"));
            assert_eq!(announcement.description.as_deref(), Some("**[a](ua)**"));
            assert_eq!(announcement.color, 0xA877C8);
            assert_eq!(announcement.fields.len(), 3);
            assert_eq!(announcement.fields[0].name, "Duration");
            assert_eq!(announcement.fields[0].value, "02:05");
            assert_eq!(announcement.fields[1].name, "Position in queue");
            assert_eq!(announcement.fields[1].value, "Next");
            assert_eq!(announcement.fields[2].name, "Estimated time until song is played");
            assert_eq!(announcement.fields[2].value, "00:00");
            assert_eq!(
                announcement.thumbnail.as_deref(),
                Some("https://images.pexels.com/photos/11733110/pexels-photo-11733110.jpeg")
            );
            let now = now_playing.expect("the first play starts at once");
            assert_eq!(now.description.as_deref(), Some("Now playing: **[a](ua)**"));
            assert_eq!(now.fields[0].name, "Time remaining");
            assert_eq!(now.fields[0].value, "02:05");
        },
        _ => panic!("expected the queued outcome"),
    }
}

#[test]
fn second_play_numbers_its_position_and_time() {
    let mut s = Sessions::new();
    s.play(GUILD, Some(CHANNEL), Some(track("a", "ua", 10)), 0);
    let r = s.play(GUILD, Some(CHANNEL), Some(track("b", "ub", 20)), 4);
    match r {
        PlayOutcome::Queued { announcement, now_playing } => {
            assert_eq!(announcement.fields[1].value, "2");
            assert_eq!(announcement.fields[2].value, "00:06");
            assert!(now_playing.is_none());
        },
        _ => panic!("expected the queued outcome"),
    }
}

#[test]
fn current_reports_time_remaining() {
    let mut s = Sessions::new();
    s.play(GUILD, Some(CHANNEL), Some(track("a", "ua", 10)), 0);
    let e = s.current(GUILD, 3);
    assert_eq!(e.description.as_deref(), Some("Now playing: **[a](ua)**"));
    assert_eq!(e.fields[0].name, "Time remaining");
    assert_eq!(e.fields[0].value, "00:07");
    assert_eq!(e.color, 0xA877C8);
}

#[test]
fn current_with_empty_queue_says_so() {
    let mut s = Sessions::new();
    s.join(GUILD, Some(CHANNEL));
    let e = s.current(GUILD, 0);
    assert_eq!(e.description.as_deref(), Some("There are no songs in the queue"));
    assert_eq!(e.color, 0xED4245);
    assert!(e.fields.is_empty());
}

#[test]
fn track_end_advances_and_announces_the_next() {
    let mut s = Sessions::new();
    s.play(GUILD, Some(CHANNEL), Some(track("a", "ua", 10)), 0);
    s.play(GUILD, Some(CHANNEL), Some(track("b", "ub", 20)), 0);
    let e = s.on_track_end(GUILD, 0);
    assert_eq!(e.description.as_deref(), Some("Now playing: **[b](ub)**"));
    assert_eq!(s.queue_len(GUILD), 1);
    let e2 = s.on_track_end(GUILD, 0);
    assert_eq!(e2.description.as_deref(), Some("There are no songs in the queue"));
    assert_eq!(s.queue_len(GUILD), 0);
    assert!(s.contains(GUILD));
}

#[test]
fn sessions_are_kept_apart_by_guild() {
    let mut s = Sessions::new();
    s.play(GUILD, Some(CHANNEL), Some(track("a", "ua", 10)), 0);
    s.play(99, Some(44), Some(track("z", "uz", 5)), 0);
    assert_eq!(s.count(), 2);
    assert_eq!(s.queue_len(GUILD), 1);
    assert_eq!(s.queue_len(99), 1);
    s.leave(GUILD);
    assert_eq!(s.count(), 1);
    assert_eq!(s.queue_len(99), 1);
}

#[test]
fn queue_duration_sums_the_tracks() {
    let mut s = Sessions::new();
    assert_eq!(s.queue_duration(GUILD), Some(0));
    s.play(GUILD, Some(CHANNEL), Some(track("a", "ua", 10)), 0);
    s.play(GUILD, Some(CHANNEL), Some(track("b", "ub", 20)), 0);
    s.play(GUILD, Some(CHANNEL), Some(track("c", "uc", 35)), 0);
    assert_eq!(s.queue_duration(GUILD), Some(65));
}

#[test]
fn validation_message_only_without_a_channel() {
    let warning = validate_voice_channel(None);
    assert_eq!(
        warning.as_deref(),
        Some("You have to be in a voice channel to execute commands!")
    );
    assert!(validate_voice_channel(Some(CHANNEL)).is_none());
}

#[test]
fn custom_thumbnail_is_kept() {
    let mut s = Sessions::new();
    let mut t = track("a", "ua", 10);
    t.thumbnail = Some("https://example.net/cover.png".to_string());
    let r = s.play(GUILD, Some(CHANNEL), Some(t), 0);
    match r {
        PlayOutcome::Queued { announcement, .. } => {
            assert_eq!(announcement.thumbnail.as_deref(), Some("https://example.net/cover.png"));
        },
        _ => panic!("expected the queued outcome"),
    }
}
