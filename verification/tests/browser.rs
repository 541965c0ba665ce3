use mpris_hyprland_host::browser::{
    app_identity, bus_segment, comm_name, desktop_entry, detect_desktop_entry, detected_browser,
    make_identity, ppid_from_status, url_host, Browser,
};
use mpris_hyprland_host::protocol::TrackInfo;

#[test]
fn override_wins_when_not_empty() {
    assert_eq!(detect_desktop_entry(Some("my-browser"), Some("zen-bin")), "my-browser");
    assert_eq!(detect_desktop_entry(Some(""), Some("zen-bin")), "zen");
}

#[test]
fn parent_name_is_matched_case_insensitively_most_specific_first() {
    assert_eq!(detect_desktop_entry(None, Some("Zen-Bin")), "zen");
    assert_eq!(detect_desktop_entry(None, Some("chromium-browse")), "chromium");
    assert_eq!(detect_desktop_entry(None, Some("google-chrome")), "google-chrome");
    assert_eq!(detect_desktop_entry(None, Some("chrome")), "google-chrome");
    assert_eq!(detect_desktop_entry(None, Some("msedge")), "microsoft-edge");
    assert_eq!(detect_desktop_entry(None, Some("librewolf")), "librewolf");
    assert_eq!(detect_desktop_entry(None, Some("firefox-bin")), "firefox");
}

#[test]
fn unknown_or_missing_parent_falls_back_to_firefox() {
    assert_eq!(detect_desktop_entry(None, Some("bash")), "firefox");
    assert_eq!(detect_desktop_entry(None, None), "firefox");
}

#[test]
fn detected_family_gives_segment_and_identity() {
    assert_eq!(detected_browser("zen"), Some(Browser::Zen));
    assert_eq!(detected_browser("zen-bin"), None);
    assert_eq!(bus_segment("zen"), "firefox");
    assert_eq!(bus_segment("brave-browser"), "chromium");
    assert_eq!(bus_segment("unknown"), "firefox");
    assert_eq!(app_identity("vivaldi-stable"), "Vivaldi");
    assert_eq!(app_identity("mullvad-browser"), "Mullvad Browser");
    assert_eq!(app_identity("unknown"), "Firefox");
}

#[test]
fn desktop_entry_defaults_to_firefox() {
    assert_eq!(desktop_entry(None), "firefox");
    assert_eq!(desktop_entry(Some("zen")), "zen");
}

#[test]
fn url_host_extracts_the_bare_host() {
    assert_eq!(url_host("https://www.youtube.com/watch?v=x").as_deref(), Some("youtube.com"));
    assert_eq!(url_host("https://open.spotify.com").as_deref(), Some("open.spotify.com"));
    assert_eq!(url_host("http://user:pw@example.org:8080/a").as_deref(), Some("example.org"));
    assert_eq!(url_host("https://music.example.com?x#y").as_deref(), Some("music.example.com"));
    assert_eq!(url_host("https://a.com#frag").as_deref(), Some("a.com"));
}

#[test]
fn url_host_refuses_urls_without_a_host() {
    assert_eq!(url_host("about:blank"), None);
    assert_eq!(url_host("file:///home/me/a.mp3"), None);
    assert_eq!(url_host("https://www./x"), None);
    assert_eq!(url_host(""), None);
}

#[test]
fn identity_names_browser_and_site() {
    let track = TrackInfo {
        page_url: "https://www.youtube.com/watch?v=x".to_string(),
        ..TrackInfo::default()
    };
    assert_eq!(make_identity("zen", &track), "Zen (youtube.com)");
    assert_eq!(make_identity("firefox", &TrackInfo::default()), "Firefox");
}

#[test]
fn ppid_is_read_from_the_status_text() {
    let status = "Name:\tcat\nUmask:\t0022\nState:\tR (running)\nTgid:\t1234\nPid:\t1234\nPPid:\t987\nTracerPid:\t0\n";
    assert_eq!(ppid_from_status(status).as_deref(), Some("987"));
    assert_eq!(ppid_from_status("Name:\tcat\nPid:\t1\n"), None);
    assert_eq!(ppid_from_status("PPid:  42  \r\n"), Some("42".to_string()));
    assert_eq!(ppid_from_status("Name: x\nPPid:\u{3000}7"), Some("7".to_string()));
}

#[test]
fn comm_name_is_trimmed() {
    assert_eq!(comm_name("zen-bin\n"), "zen-bin");
    assert_eq!(comm_name("  firefox \t"), "firefox");
}

#[test]
fn browser_records() {
    assert_eq!(Browser::Edge.needles(), vec!["microsoft-edge", "msedge"]);
    assert_eq!(Browser::Chrome.entry(), "google-chrome");
    assert_eq!(Browser::Opera.segment(), "chromium");
    assert_eq!(Browser::Floorp.identity(), "Floorp");
    assert_eq!(mpris_hyprland_host::browser::browsers().len(), 12);
}

#[test]
fn every_family_is_detected_from_its_entry() {
    for b in mpris_hyprland_host::browser::browsers() {
        assert_eq!(detected_browser(b.entry()), Some(b));
        assert_eq!(bus_segment(b.entry()), b.segment());
        assert_eq!(app_identity(b.entry()), b.identity());
    }
}
