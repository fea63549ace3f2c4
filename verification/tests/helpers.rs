use gabeln_jetzt::error::GabelnError;
use gabeln_jetzt::events::{
    filter_fork_events, link_header_has_next, recent_events, Actor, Event, Payload, Repository,
};
use gabeln_jetzt::feed::{entry_author_uri, entry_content, entry_summary, entry_title};
use gabeln_jetzt::giphy::{select_gif, GiphyGif, GiphyImages, GiphyOriginal, GiphyResponse};
use gabeln_jetzt::events::Forkee;
use gabeln_jetzt::text::{contains_gif_trigger, format_event, invalid_command};

fn event(event_type: &str, created_at: i64) -> Event {
    Event {
        id: "1".to_string(),
        event_type: event_type.to_string(),
        actor: Actor {
            display_login: "alice".to_string(),
            avatar_url: "https://example.org/a.png".to_string(),
        },
        repo: Repository { name: "x".to_string() },
        payload: Payload {
            forkee: Some(Forkee {
                full_name: "alice/x".to_string(),
                html_url: "https://github.com/alice/x".to_string(),
            }),
        },
        created_at,
    }
}

#[test]
fn filter_keeps_only_fork_events() {
    let events = vec![event("PushEvent", 1), event("ForkEvent", 2), event("WatchEvent", 3)];
    let forks = filter_fork_events(&events);
    assert_eq!(forks.len(), 1);
    assert_eq!(forks[0].created_at, 2);
    assert_eq!(forks[0].event_type, "ForkEvent");
}

#[test]
fn recent_events_keep_only_the_young() {
    let events = vec![event("ForkEvent", 100), event("ForkEvent", 900)];
    let now = 1000;
    let window = 300;
    let recent = recent_events(&events, now, window);
    assert_eq!(recent.len(), 1);
    assert_eq!(recent[0].created_at, 900);
}

#[test]
fn sort_orders_events_by_timestamp() {
    let mut events = vec![
        event("ForkEvent", 300),
        event("ForkEvent", 100),
        event("ForkEvent", 200),
        event("ForkEvent", 100),
    ];
    gabeln_jetzt::events::sort_events_by_time(&mut events);
    let times: Vec<i64> = events.iter().map(|e| e.created_at).collect();
    assert_eq!(times, vec![100, 100, 200, 300]);
}

#[test]
fn sort_of_empty_and_singleton_is_trivial() {
    let mut none: Vec<Event> = vec![];
    gabeln_jetzt::events::sort_events_by_time(&mut none);
    assert!(none.is_empty());
    let mut one = vec![event("ForkEvent", 42)];
    gabeln_jetzt::events::sort_events_by_time(&mut one);
    assert_eq!(one.len(), 1);
    assert_eq!(one[0].created_at, 42);
}

#[test]
fn link_header_with_next_page_asks_to_continue() {
    let header = "<https://api.github.com/user/1/events/public?page=2&per_page=300>; rel=\"next\", <https://api.github.com/user/1/events/public?page=5&per_page=300>; rel=\"last\"";
    assert!(link_header_has_next(header));
}

#[test]
fn link_header_without_next_page_stops() {
    let header = "<https://api.github.com/user/1/events/public?page=1&per_page=300>; rel=\"prev\"";
    assert!(!link_header_has_next(header));
    assert!(!link_header_has_next(""));
    // The relation alone, with no page marker before it, is not enough.
    assert!(!link_header_has_next("; rel=\"next\""));
}

#[test]
fn select_gif_fails_only_on_an_empty_response() {
    let empty = GiphyResponse { data: vec![] };
    assert_eq!(select_gif(&empty), Err(GabelnError::FailedToParseGiphyResponse));
}

#[test]
fn select_gif_returns_a_listed_url() {
    let gif = |url: &str| GiphyGif {
        images: GiphyImages {
            original: GiphyOriginal {
                url: url.to_string(),
                width: "10".to_string(),
                height: "10".to_string(),
                size: "100".to_string(),
                frames: "5".to_string(),
            },
        },
    };
    let one = GiphyResponse { data: vec![gif("https://example.org/only.gif")] };
    assert_eq!(select_gif(&one), Ok("https://example.org/only.gif".to_string()));

    let many = GiphyResponse {
        data: vec![gif("https://example.org/a.gif"), gif("https://example.org/b.gif")],
    };
    let picked = select_gif(&many).unwrap();
    assert!(picked == "https://example.org/a.gif" || picked == "https://example.org/b.gif");
}

#[test]
fn error_texts_are_exact() {
    assert_eq!(
        GabelnError::NoGiphyApiKey.description(),
        "Please provide a giphy API key via environment variable!"
    );
    assert_eq!(
        GabelnError::FailedToFetchUserEvents("alice".to_string()).message(),
        "Failed to fetch the events for the user alice!"
    );
    assert_eq!(
        GabelnError::FailedToFetchUserEvents("alice".to_string()).description(),
        "Failed to fetch the events for the given user!"
    );
    assert_eq!(
        GabelnError::FailedToCreateFeed.message(),
        "Failed to create atom feed from user events!"
    );
}

#[test]
fn notification_text_is_exact() {
    let e = event("ForkEvent", 7);
    assert_eq!(
        format_event(&e),
        "**alice** forked __x__ at [alice/x](https://github.com/alice/x)!"
    );
}

#[test]
fn invalid_command_text_names_the_command() {
    assert_eq!(invalid_command("frobnicate"), "Invalid command `frobnicate`!");
}

#[test]
fn trigger_detection_is_a_substring_check() {
    assert!(contains_gif_trigger("gabeln.jetzt"));
    assert!(contains_gif_trigger("see gabeln.jetzt now"));
    assert!(!contains_gif_trigger("gabeln jetzt"));
    assert!(!contains_gif_trigger(""));
    assert!(!contains_gif_trigger("gabeln.jetz"));
}

#[test]
fn feed_entry_texts_are_exact() {
    let e = event("ForkEvent", 7);
    assert_eq!(entry_title(&e), "alice forked x");
    assert_eq!(entry_author_uri(&e), "https://github.com/alice");
    assert_eq!(entry_summary(&e), "x was forked by alice at alice/x.");
    assert_eq!(
        entry_content(&e),
        "<a href=\"https://github.com/alice/x\"><img src=\"https://example.org/a.png\"/></a>"
    );
}
