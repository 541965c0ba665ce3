//! Which browser the host serves, and the names it publishes under: the
//! `.desktop` entry, the MPRIS bus-name segment, the human-readable identity,
//! and the host part of the page URL that the identity carries.

use crate::protocol::TrackInfo;
use crate::text::{
    ascii_lower, ascii_lowercase, chars_of, contains, contains_seq, occurs_at, find, find_seq, first_index, first_where,
    index_of_char, lemma_first_where_none, lemma_first_where_unique, lowercase_chars, push_str,
    slice_chars, starts_with, starts_with_seq, string_from_chars, trim, trim_chars,
};
use vstd::prelude::*;

verus! {

/// A known browser family. Firefox-family browsers (incl. Zen/LibreWolf)
/// publish under `org.mpris.MediaPlayer2.firefox.…` so status bars that
/// special-case the per-window bridge keep matching; Chromium-family browsers
/// publish under `…chromium…` so the bridge stays distinct from Chromium's own
/// single player.
#[derive(Debug, Clone, Copy, PartialEq, Eq, Structural)]
pub enum Browser {
    Zen,
    LibreWolf,
    Floorp,
    Waterfox,
    Mullvad,
    Chromium,
    Brave,
    Vivaldi,
    Edge,
    Chrome,
    Opera,
    Firefox,
}

/// The browser families in matching order: most-specific needles first
/// ("chromium" before "chrome", "google-chrome" before "chrome") so a process
/// name doesn't fall through to the wrong family.
pub open spec fn browser_table() -> Seq<Browser> {
    seq![
        Browser::Zen,
        Browser::LibreWolf,
        Browser::Floorp,
        Browser::Waterfox,
        Browser::Mullvad,
        Browser::Chromium,
        Browser::Brave,
        Browser::Vivaldi,
        Browser::Edge,
        Browser::Chrome,
        Browser::Opera,
        Browser::Firefox,
    ]
}

impl Browser {
    /// Substrings of the process name that identify the family.
    pub open spec fn spec_needles(self) -> Seq<Seq<char>> {
        match self {
            Browser::Zen => seq!["zen"@],
            Browser::LibreWolf => seq!["librewolf"@],
            Browser::Floorp => seq!["floorp"@],
            Browser::Waterfox => seq!["waterfox"@],
            Browser::Mullvad => seq!["mullvad"@],
            Browser::Chromium => seq!["chromium"@],
            Browser::Brave => seq!["brave"@],
            Browser::Vivaldi => seq!["vivaldi"@],
            Browser::Edge => seq!["microsoft-edge"@, "msedge"@],
            Browser::Chrome => seq!["google-chrome"@, "chrome"@],
            Browser::Opera => seq!["opera"@],
            Browser::Firefox => seq!["firefox"@],
        }
    }

    /// The `.desktop` basename MPRIS clients use for the icon.
    pub open spec fn spec_entry(self) -> Seq<char> {
        match self {
            Browser::Zen => "zen"@,
            Browser::LibreWolf => "librewolf"@,
            Browser::Floorp => "floorp"@,
            Browser::Waterfox => "waterfox"@,
            Browser::Mullvad => "mullvad-browser"@,
            Browser::Chromium => "chromium"@,
            Browser::Brave => "brave-browser"@,
            Browser::Vivaldi => "vivaldi-stable"@,
            Browser::Edge => "microsoft-edge"@,
            Browser::Chrome => "google-chrome"@,
            Browser::Opera => "opera"@,
            Browser::Firefox => "firefox"@,
        }
    }

    /// The MPRIS bus-name segment.
    pub open spec fn spec_segment(self) -> Seq<char> {
        match self {
            Browser::Zen | Browser::LibreWolf | Browser::Floorp | Browser::Waterfox
            | Browser::Mullvad | Browser::Firefox => "firefox"@,
            _ => "chromium"@,
        }
    }

    /// The human-readable MPRIS Identity base.
    pub open spec fn spec_identity(self) -> Seq<char> {
        match self {
            Browser::Zen => "Zen"@,
            Browser::LibreWolf => "LibreWolf"@,
            Browser::Floorp => "Floorp"@,
            Browser::Waterfox => "Waterfox"@,
            Browser::Mullvad => "Mullvad Browser"@,
            Browser::Chromium => "Chromium"@,
            Browser::Brave => "Brave"@,
            Browser::Vivaldi => "Vivaldi"@,
            Browser::Edge => "Microsoft Edge"@,
            Browser::Chrome => "Google Chrome"@,
            Browser::Opera => "Opera"@,
            Browser::Firefox => "Firefox"@,
        }
    }

    pub fn needles(&self) -> (r: Vec<&'static str>)
        ensures
            r@.map_values(|s: &str| s@) == self.spec_needles(),
    {
        let r = match self {
            Browser::Zen => vec!["zen"],
            Browser::LibreWolf => vec!["librewolf"],
            Browser::Floorp => vec!["floorp"],
            Browser::Waterfox => vec!["waterfox"],
            Browser::Mullvad => vec!["mullvad"],
            Browser::Chromium => vec!["chromium"],
            Browser::Brave => vec!["brave"],
            Browser::Vivaldi => vec!["vivaldi"],
            Browser::Edge => vec!["microsoft-edge", "msedge"],
            Browser::Chrome => vec!["google-chrome", "chrome"],
            Browser::Opera => vec!["opera"],
            Browser::Firefox => vec!["firefox"],
        };
        assert(r@.map_values(|s: &str| s@) =~= self.spec_needles());
        r
    }

    pub fn entry(&self) -> (r: &'static str)
        ensures
            r@ == self.spec_entry(),
    {
        match self {
            Browser::Zen => "zen",
            Browser::LibreWolf => "librewolf",
            Browser::Floorp => "floorp",
            Browser::Waterfox => "waterfox",
            Browser::Mullvad => "mullvad-browser",
            Browser::Chromium => "chromium",
            Browser::Brave => "brave-browser",
            Browser::Vivaldi => "vivaldi-stable",
            Browser::Edge => "microsoft-edge",
            Browser::Chrome => "google-chrome",
            Browser::Opera => "opera",
            Browser::Firefox => "firefox",
        }
    }

    pub fn segment(&self) -> (r: &'static str)
        ensures
            r@ == self.spec_segment(),
    {
        match self {
            Browser::Zen | Browser::LibreWolf | Browser::Floorp | Browser::Waterfox
            | Browser::Mullvad | Browser::Firefox => "firefox",
            _ => "chromium",
        }
    }

    pub fn identity(&self) -> (r: &'static str)
        ensures
            r@ == self.spec_identity(),
    {
        match self {
            Browser::Zen => "Zen",
            Browser::LibreWolf => "LibreWolf",
            Browser::Floorp => "Floorp",
            Browser::Waterfox => "Waterfox",
            Browser::Mullvad => "Mullvad Browser",
            Browser::Chromium => "Chromium",
            Browser::Brave => "Brave",
            Browser::Vivaldi => "Vivaldi",
            Browser::Edge => "Microsoft Edge",
            Browser::Chrome => "Google Chrome",
            Browser::Opera => "Opera",
            Browser::Firefox => "Firefox",
        }
    }
}

/// The browser families, in matching order.
pub fn browsers() -> (r: Vec<Browser>)
    ensures
        r@ == browser_table(),
{
    let r = vec![
        Browser::Zen,
        Browser::LibreWolf,
        Browser::Floorp,
        Browser::Waterfox,
        Browser::Mullvad,
        Browser::Chromium,
        Browser::Brave,
        Browser::Vivaldi,
        Browser::Edge,
        Browser::Chrome,
        Browser::Opera,
        Browser::Firefox,
    ];
    assert(r@ =~= browser_table());
    r
}

// ---------------------------------------------------------------------------
// Detection
// ---------------------------------------------------------------------------

/// Some needle of `b` occurs in the (lowercased) process name `comm`.
pub open spec fn browser_matches(b: Browser, comm: Seq<char>) -> bool {
    exists|k: int| 0 <= k < b.spec_needles().len() && contains(comm, #[trigger] b.spec_needles()[k])
}

/// The first family of `table` that matches `comm`.
pub open spec fn first_matching(table: Seq<Browser>, comm: Seq<char>) -> Option<Browser>
    decreases table.len(),
{
    if table.len() == 0 {
        None
    } else if browser_matches(table[0], comm) {
        Some(table[0])
    } else {
        first_matching(table.drop_first(), comm)
    }
}

/// The first family of `table` whose `.desktop` entry is `entry`.
pub open spec fn first_with_entry(table: Seq<Browser>, entry: Seq<char>) -> Option<Browser>
    decreases table.len(),
{
    if table.len() == 0 {
        None
    } else if table[0].spec_entry() == entry {
        Some(table[0])
    } else {
        first_with_entry(table.drop_first(), entry)
    }
}

/// The `.desktop` entry the host detects: a non-empty override wins; else the
/// entry of the first family whose needle occurs in the lowercased parent
/// process name; else "firefox".
pub open spec fn spec_detect_desktop_entry(
    env_override: Option<Seq<char>>,
    parent_comm: Option<Seq<char>>,
) -> Seq<char> {
    if env_override is Some && env_override->0.len() > 0 {
        env_override->0
    } else {
        let comm = ascii_lowercase(
            match parent_comm {
                Some(c) => c,
                None => Seq::empty(),
            },
        );
        match first_matching(browser_table(), comm) {
            Some(b) => b.spec_entry(),
            None => "firefox"@,
        }
    }
}

/// The family of a detected `.desktop` entry, if it is a known one.
pub open spec fn spec_detected_browser(entry: Seq<char>) -> Option<Browser> {
    first_with_entry(browser_table(), entry)
}

/// Whether some needle of `b` occurs in `comm`.
fn matches_browser(b: Browser, comm: &Vec<char>) -> (r: bool)
    ensures
        r == browser_matches(b, comm@),
{
    let needles = b.needles();
    let ghost ns = b.spec_needles();
    for k in 0..needles.len()
        invariant
            needles@.map_values(|s: &str| s@) == ns,
            ns == b.spec_needles(),
            forall|j: int| 0 <= j < k ==> !contains(comm@, #[trigger] ns[j]),
    {
        let needle = chars_of(needles[k]);
        assert(needle@ == ns[k as int]);
        if contains_seq(comm, &needle) {
            return true;
        }
    }
    false
}

/// Detect the browser's `.desktop` basename so MPRIS clients resolve the
/// correct icon: the non-empty `env_override` (the
/// `MPRIS_HYPRLAND_DESKTOP_ENTRY` variable) wins; else the parent process
/// name `parent_comm` (the host is a child of the browser), matched
/// case-insensitively against the known families; else "firefox".
pub fn detect_desktop_entry(env_override: Option<&str>, parent_comm: Option<&str>) -> (r: String)
    ensures
        r@ == spec_detect_desktop_entry(
            match env_override {
                Some(v) => Some(v@),
                None => None,
            },
            match parent_comm {
                Some(c) => Some(c@),
                None => None,
            },
        ),
{
    if let Some(v) = env_override {
        if !v.is_empty() {
            return v.to_owned();
        }
    }
    let raw = match parent_comm {
        Some(c) => chars_of(c),
        None => Vec::new(),
    };
    let comm = lowercase_chars(&raw);
    let ghost over = match env_override {
        Some(v) => Some(v@),
        None => None,
    };
    let ghost parent = match parent_comm {
        Some(c) => Some(c@),
        None => None,
    };
    assert(!(over is Some && over->0.len() > 0));
    assert(comm@ == ascii_lowercase(
        match parent {
            Some(c) => c,
            None => Seq::empty(),
        },
    ));
    let table = browsers();
    let ghost t = browser_table();
    let mut i: usize = 0;
    assert(t.skip(0) =~= t);
    while i < table.len()
        invariant
            table@ == t,
            t == browser_table(),
            i <= t.len(),
            !(over is Some && over->0.len() > 0),
            over == match env_override {
                Some(v) => Some(v@),
                None => None,
            },
            parent == match parent_comm {
                Some(c) => Some(c@),
                None => None,
            },
            comm@ == ascii_lowercase(
                match parent {
                    Some(c) => c,
                    None => Seq::<char>::empty(),
                },
            ),
            first_matching(t, comm@) == first_matching(t.skip(i as int), comm@),
        decreases t.len() - i,
    {
        assert(t.skip(i as int)[0] == t[i as int]);
        assert(t.skip(i as int).drop_first() =~= t.skip(i + 1));
        if matches_browser(table[i], &comm) {
            return table[i].entry().to_owned();
        }
        i = i + 1;
    }
    assert(t.skip(i as int).len() == 0);
    "firefox".to_owned()
}

/// The family record of a detected `.desktop` entry, if it's a known one.
pub fn detected_browser(entry: &str) -> (r: Option<Browser>)
    ensures
        r == spec_detected_browser(entry@),
{
    let wanted: String = entry.to_owned();
    let table = browsers();
    let ghost t = browser_table();
    let mut i: usize = 0;
    assert(t.skip(0) =~= t);
    while i < table.len()
        invariant
            table@ == t,
            t == browser_table(),
            i <= t.len(),
            wanted@ == entry@,
            first_with_entry(t, entry@) == first_with_entry(t.skip(i as int), entry@),
        decreases t.len() - i,
    {
        assert(t.skip(i as int)[0] == t[i as int]);
        assert(t.skip(i as int).drop_first() =~= t.skip(i + 1));
        let candidate: String = table[i].entry().to_owned();
        if candidate.eq(&wanted) {
            return Some(table[i]);
        }
        i = i + 1;
    }
    assert(t.skip(i as int).len() == 0);
    None
}

/// The detected browser's `.desktop` basename, or "firefox" before detection.
pub fn desktop_entry<'a>(detected: Option<&'a str>) -> (r: &'a str)
    ensures
        r@ == match detected {
            Some(e) => e@,
            None => "firefox"@,
        },
{
    match detected {
        Some(e) => e,
        None => "firefox",
    }
}

/// Every family is recognised again from its own `.desktop` entry.
pub proof fn lemma_entry_detects_its_family(b: Browser)
    ensures
        spec_detected_browser(b.spec_entry()) == Some(b),
{
    reveal_strlit("zen");
    reveal_strlit("librewolf");
    reveal_strlit("floorp");
    reveal_strlit("waterfox");
    reveal_strlit("mullvad-browser");
    reveal_strlit("chromium");
    reveal_strlit("brave-browser");
    reveal_strlit("vivaldi-stable");
    reveal_strlit("microsoft-edge");
    reveal_strlit("google-chrome");
    reveal_strlit("opera");
    reveal_strlit("firefox");
    let t = browser_table();
    let e = b.spec_entry();
    assert forall|i: int| 0 <= i < t.len() && t[i] != b implies #[trigger] t[i].spec_entry() != e by {
        let o = t[i];
        if o.spec_entry().len() == e.len() {
            assert(o.spec_entry()[0] != e[0] || o.spec_entry()[1] != e[1] || o.spec_entry()[2]
                != e[2]);
        }
    }
    lemma_first_with_entry_finds(t, b);
}

proof fn lemma_first_with_entry_finds(t: Seq<Browser>, b: Browser)
    requires
        t.contains(b),
        forall|i: int| 0 <= i < t.len() && t[i] != b ==> #[trigger] t[i].spec_entry() != b.spec_entry(),
    ensures
        first_with_entry(t, b.spec_entry()) == Some(b),
    decreases t.len(),
{
    if t[0] != b {
        let u = t.drop_first();
        let k = choose|k: int| 0 <= k < t.len() && t[k] == b;
        assert(u[k - 1] == b);
        assert forall|i: int| 0 <= i < u.len() && u[i] != b implies #[trigger] u[i].spec_entry()
            != b.spec_entry() by {
            assert(u[i] == t[i + 1]);
        }
        lemma_first_with_entry_finds(u, b);
    }
}

/// Every Firefox-family browser publishes under the `firefox` segment, so
/// status bars match the bridge whichever fork runs; Chromium-family ones
/// publish under `chromium`.
pub proof fn lemma_family_segments(b: Browser)
    ensures
        spec_bus_segment(b.spec_entry()) == (match b {
            Browser::Zen | Browser::LibreWolf | Browser::Floorp | Browser::Waterfox
            | Browser::Mullvad | Browser::Firefox => "firefox"@,
            _ => "chromium"@,
        }),
{
    lemma_entry_detects_its_family(b);
}

/// The MPRIS bus-name segment of a detected `.desktop` entry: that of its
/// family, or "firefox" for an unknown one.
pub open spec fn spec_bus_segment(entry: Seq<char>) -> Seq<char> {
    match spec_detected_browser(entry) {
        Some(b) => b.spec_segment(),
        None => "firefox"@,
    }
}

/// The human-readable MPRIS Identity base of a detected `.desktop` entry:
/// that of its family, or "Firefox" for an unknown one.
pub open spec fn spec_app_identity(entry: Seq<char>) -> Seq<char> {
    match spec_detected_browser(entry) {
        Some(b) => b.spec_identity(),
        None => "Firefox"@,
    }
}

/// MPRIS bus-name segment for the detected browser family.
pub fn bus_segment(entry: &str) -> (r: &'static str)
    ensures
        r@ == spec_bus_segment(entry@),
{
    match detected_browser(entry) {
        Some(b) => b.segment(),
        None => "firefox",
    }
}

/// Human-readable MPRIS Identity base for the detected browser family.
pub fn app_identity(entry: &str) -> (r: &'static str)
    ensures
        r@ == spec_app_identity(entry@),
{
    match detected_browser(entry) {
        Some(b) => b.identity(),
        None => "Firefox",
    }
}

// ---------------------------------------------------------------------------
// The parent process
// ---------------------------------------------------------------------------

/// `"PPid:"`.
pub open spec fn ppid_label() -> Seq<char> {
    seq!['P', 'P', 'i', 'd', ':']
}

/// End of the first line of `s`: its first newline, or the end of `s`.
pub open spec fn line_end(s: Seq<char>) -> int {
    match first_index(s, '\n') {
        Some(i) => i as int,
        None => s.len() as int,
    }
}

/// The trimmed rest of the first line of a `/proc/<pid>/status` text that
/// starts with `PPid:`.
pub open spec fn spec_ppid_field(s: Seq<char>) -> Option<Seq<char>>
    decreases s.len(),
{
    let end = line_end(s);
    let line = s.take(end);
    if starts_with(line, ppid_label()) {
        Some(trim(line.skip(5)))
    } else if end < s.len() {
        spec_ppid_field(s.skip(end + 1))
    } else {
        None
    }
}

/// The parent process id, as written in the `PPid:` line of a
/// `/proc/self/status` text (trimmed), if there is such a line.
pub fn ppid_from_status(status: &str) -> (r: Option<String>)
    ensures
        match r {
            Some(p) => spec_ppid_field(status@) == Some(p@),
            None => spec_ppid_field(status@) is None,
        },
{
    let label: Vec<char> = vec!['P', 'P', 'i', 'd', ':'];
    assert(label@ =~= ppid_label());
    let mut rest: Vec<char> = chars_of(status);
    let ghost all = rest@;
    loop
        invariant
            label@ == ppid_label(),
            all == status@,
            spec_ppid_field(all) == spec_ppid_field(rest@),
        decreases rest.len(),
    {
        let end: usize = match index_of_char(&rest, '\n') {
            Some(i) => {
                proof {
                    crate::text::lemma_first_where_sound(rest@, set!['\n']);
                }
                i
            },
            None => rest.len(),
        };
        assert(end as int == line_end(rest@));
        let line = slice_chars(&rest, 0, end);
        assert(line@ =~= rest@.take(end as int));
        assert(spec_ppid_field(rest@) == (if starts_with(line@, ppid_label()) {
            Some(trim(line@.skip(5)))
        } else if end < rest@.len() {
            spec_ppid_field(rest@.skip(end + 1))
        } else {
            None
        }));
        if starts_with_seq(&line, &label) {
            let value = slice_chars(&line, 5, line.len());
            assert(value@ =~= line@.skip(5));
            return Some(string_from_chars(trim_chars(&value)));
        }
        if end >= rest.len() {
            return None;
        }
        let next = slice_chars(&rest, end + 1, rest.len());
        rest = next;
    }
}

/// The name a process gives in `/proc/<pid>/comm`: the file's text, trimmed.
pub fn comm_name(comm_file: &str) -> (r: String)
    ensures
        r@ == trim(comm_file@),
{
    string_from_chars(trim_chars(&chars_of(comm_file)))
}

// ---------------------------------------------------------------------------
// Identity
// ---------------------------------------------------------------------------

/// `"://"`.
pub open spec fn scheme_separator() -> Seq<char> {
    seq![':', '/', '/']
}

/// The characters that end the authority part of a URL.
pub open spec fn url_delimiters() -> Set<char> {
    set!['/', '?', '#']
}

/// `"www."`.
pub open spec fn www_prefix() -> Seq<char> {
    seq!['w', 'w', 'w', '.']
}

/// The host of a URL: the authority after the first `://` (up to the first
/// `/`, `?` or `#`), without user info (up to the first `@`), without port
/// (from the first `:`), and without a leading `www.`; `None` where there is
/// no `://` or the host is empty.
pub open spec fn spec_url_host(url: Seq<char>) -> Option<Seq<char>> {
    match find(url, scheme_separator()) {
        None => None,
        Some(i) => {
            let rest = url.skip(i + 3 as int);
            let authority = match first_where(rest, url_delimiters()) {
                Some(j) => rest.take(j as int),
                None => rest,
            };
            let no_user = match first_index(authority, '@') {
                Some(j) => authority.skip(j + 1 as int),
                None => authority,
            };
            let no_port = match first_index(no_user, ':') {
                Some(j) => no_user.take(j as int),
                None => no_user,
            };
            let host = if starts_with(no_port, www_prefix()) {
                no_port.skip(4)
            } else {
                no_port
            };
            if host.len() == 0 {
                None
            } else {
                Some(host)
            }
        },
    }
}

/// Index of the first `/`, `?` or `#` in `s`, or its length.
fn authority_end(s: &Vec<char>) -> (r: usize)
    ensures
        r == match first_where(s@, url_delimiters()) {
            Some(j) => j as int,
            None => s@.len() as int,
        },
{
    for i in 0..s.len()
        invariant
            forall|j: int| 0 <= j < i ==> !url_delimiters().contains(#[trigger] s@[j]),
    {
        let c = s[i];
        if c == '/' || c == '?' || c == '#' {
            proof {
                lemma_first_where_unique(s@, url_delimiters(), i as nat);
            }
            return i;
        }
    }
    proof {
        lemma_first_where_none(s@, url_delimiters());
    }
    s.len()
}

/// The host part of a page URL, lightly extracted (see `spec_url_host`).
pub fn url_host(url: &str) -> (r: Option<String>)
    ensures
        match r {
            Some(h) => spec_url_host(url@) == Some(h@),
            None => spec_url_host(url@) is None,
        },
{
    let u = chars_of(url);
    let sep: Vec<char> = vec![':', '/', '/'];
    assert(sep@ =~= scheme_separator());
    let i = match find_seq(&u, &sep) {
        None => {
            return None;
        },
        Some(i) => i,
    };
    proof {
        crate::text::lemma_find_from_sound(u@, sep@, 0);
        assert(crate::text::occurs_at(u@, sep@, i as int));
        assert(sep@.len() == 3);
        assert(i + 3 <= u@.len());
        assert(i + 3 <= u.len());
    }
    let rest = slice_chars(&u, i + 3, u.len());
    assert(rest@ =~= u@.skip(i + 3));
    let end = authority_end(&rest);
    proof {
        crate::text::lemma_first_where_sound(rest@, url_delimiters());
    }
    let authority = slice_chars(&rest, 0, end);
    assert(authority@ =~= match first_where(rest@, url_delimiters()) {
        Some(j) => rest@.take(j as int),
        None => rest@,
    });
    let no_user = match index_of_char(&authority, '@') {
        Some(j) => {
            proof {
                crate::text::lemma_first_where_sound(authority@, set!['@']);
            }
            let v = slice_chars(&authority, j + 1, authority.len());
            assert(v@ =~= authority@.skip(j + 1));
            v
        },
        None => authority,
    };
    let no_port = match index_of_char(&no_user, ':') {
        Some(j) => {
            proof {
                crate::text::lemma_first_where_sound(no_user@, set![':']);
            }
            let v = slice_chars(&no_user, 0, j);
            assert(v@ =~= no_user@.take(j as int));
            v
        },
        None => no_user,
    };
    let www: Vec<char> = vec!['w', 'w', 'w', '.'];
    assert(www@ =~= www_prefix());
    let host = if starts_with_seq(&no_port, &www) {
        let v = slice_chars(&no_port, 4, no_port.len());
        assert(v@ =~= no_port@.skip(4));
        v
    } else {
        no_port
    };
    if host.len() == 0 {
        None
    } else {
        Some(string_from_chars(host))
    }
}

/// The MPRIS Identity of a player: the browser's display name, followed by
/// the page's host in parentheses where the page URL has one.
pub open spec fn spec_make_identity(entry: Seq<char>, page_url: Seq<char>) -> Seq<char> {
    match spec_url_host(page_url) {
        Some(host) => spec_app_identity(entry) + " ("@ + host + ")"@,
        None => spec_app_identity(entry),
    }
}

/// The MPRIS Identity of the player for `track`, so users can tell
/// Spotify-web from YouTube: "<browser> (<host>)", or "<browser>" alone.
pub fn make_identity(entry: &str, track: &TrackInfo) -> (r: String)
    ensures
        r@ == spec_make_identity(entry@, track.page_url@),
{
    let app = app_identity(entry);
    match url_host(track.page_url.as_str()) {
        Some(host) => {
            let mut v: Vec<char> = Vec::new();
            push_str(&mut v, app);
            push_str(&mut v, " (");
            push_str(&mut v, host.as_str());
            push_str(&mut v, ")");
            assert(v@ =~= spec_app_identity(entry@) + " ("@ + host@ + ")"@);
            string_from_chars(v)
        },
        None => app.to_owned(),
    }
}

// ---------------------------------------------------------------------------
// Laws of detection
// ---------------------------------------------------------------------------

/// `p` does not occur in `s` when one of its characters never appears in `s`.
proof fn lemma_missing_char(s: Seq<char>, p: Seq<char>, k: int)
    requires
        0 <= k < p.len(),
        forall|j: int| 0 <= j < s.len() ==> s[j] != p[k],
    ensures
        !contains(s, p),
{
    assert forall|i: int| !occurs_at(s, p, i) by {
        if occurs_at(s, p, i) {
            assert(s.subrange(i, i + p.len())[k] == p[k]);
            assert(s[i + k] == p[k]);
        }
    }
}

/// `p` does not occur in a shorter `s`.
proof fn lemma_longer_needle(s: Seq<char>, p: Seq<char>)
    requires
        s.len() < p.len(),
    ensures
        !contains(s, p),
{
}

/// `p` occurs in itself.
proof fn lemma_self_contains(p: Seq<char>)
    ensures
        contains(p, p),
{
    assert(p.subrange(0, p.len() as int) =~= p);
    assert(occurs_at(p, p, 0));
}

/// The first matching family is the one at `k` when it matches and no
/// earlier one does.
proof fn lemma_first_matching_at(t: Seq<Browser>, comm: Seq<char>, k: int)
    requires
        0 <= k < t.len(),
        browser_matches(t[k], comm),
        forall|j: int| 0 <= j < k ==> !browser_matches(#[trigger] t[j], comm),
    ensures
        first_matching(t, comm) == Some(t[k]),
    decreases k,
{
    if k > 0 {
        let u = t.drop_first();
        assert(!browser_matches(t[0], comm));
        assert forall|j: int| 0 <= j < k - 1 implies !browser_matches(#[trigger] u[j], comm) by {
            assert(u[j] == t[j + 1]);
        }
        assert(u[k - 1] == t[k]);
        lemma_first_matching_at(u, comm, k - 1);
    }
}

proof fn lemma_detects_zen()
    ensures
        spec_detect_desktop_entry(None, Some("zen"@)) == "zen"@,
{
    let n = "zen"@;
    assert(ascii_lowercase(n) == n) by {
        reveal_strlit("zen");
        assert(ascii_lowercase(n) =~= n);
    }
    let t = browser_table();
    assert(browser_matches(Browser::Zen, n)) by {
        lemma_self_contains(n);
        assert(Browser::Zen.spec_needles()[0] == n);
    }
    assert forall|j: int| 0 <= j < 0 implies !browser_matches(#[trigger] t[j], n) by {}
    lemma_first_matching_at(t, n, 0);
}

proof fn lemma_detects_librewolf()
    ensures
        spec_detect_desktop_entry(None, Some("librewolf"@)) == "librewolf"@,
{
    let n = "librewolf"@;
    assert(ascii_lowercase(n) == n) by {
        reveal_strlit("librewolf");
        assert(ascii_lowercase(n) =~= n);
    }
    let t = browser_table();
    assert(browser_matches(Browser::LibreWolf, n)) by {
        lemma_self_contains(n);
        assert(Browser::LibreWolf.spec_needles()[0] == n);
    }
    assert(!browser_matches(Browser::Zen, n)) by {
        assert(!contains(n, "zen"@)) by {
            reveal_strlit("librewolf");
            reveal_strlit("zen");
            lemma_missing_char(n, "zen"@, 0);
        }
    }
    assert forall|j: int| 0 <= j < 1 implies !browser_matches(#[trigger] t[j], n) by {}
    lemma_first_matching_at(t, n, 1);
}

proof fn lemma_detects_floorp()
    ensures
        spec_detect_desktop_entry(None, Some("floorp"@)) == "floorp"@,
{
    let n = "floorp"@;
    assert(ascii_lowercase(n) == n) by {
        reveal_strlit("floorp");
        assert(ascii_lowercase(n) =~= n);
    }
    let t = browser_table();
    assert(browser_matches(Browser::Floorp, n)) by {
        lemma_self_contains(n);
        assert(Browser::Floorp.spec_needles()[0] == n);
    }
    assert(!browser_matches(Browser::Zen, n)) by {
        assert(!contains(n, "zen"@)) by {
            reveal_strlit("floorp");
            reveal_strlit("zen");
            lemma_missing_char(n, "zen"@, 0);
        }
    }
    assert(!browser_matches(Browser::LibreWolf, n)) by {
        assert(!contains(n, "librewolf"@)) by {
            reveal_strlit("floorp");
            reveal_strlit("librewolf");
            lemma_longer_needle(n, "librewolf"@);
        }
    }
    assert forall|j: int| 0 <= j < 2 implies !browser_matches(#[trigger] t[j], n) by {}
    lemma_first_matching_at(t, n, 2);
}

proof fn lemma_detects_waterfox()
    ensures
        spec_detect_desktop_entry(None, Some("waterfox"@)) == "waterfox"@,
{
    let n = "waterfox"@;
    assert(ascii_lowercase(n) == n) by {
        reveal_strlit("waterfox");
        assert(ascii_lowercase(n) =~= n);
    }
    let t = browser_table();
    assert(browser_matches(Browser::Waterfox, n)) by {
        lemma_self_contains(n);
        assert(Browser::Waterfox.spec_needles()[0] == n);
    }
    assert(!browser_matches(Browser::Zen, n)) by {
        assert(!contains(n, "zen"@)) by {
            reveal_strlit("waterfox");
            reveal_strlit("zen");
            lemma_missing_char(n, "zen"@, 0);
        }
    }
    assert(!browser_matches(Browser::LibreWolf, n)) by {
        assert(!contains(n, "librewolf"@)) by {
            reveal_strlit("waterfox");
            reveal_strlit("librewolf");
            lemma_longer_needle(n, "librewolf"@);
        }
    }
    assert(!browser_matches(Browser::Floorp, n)) by {
        assert(!contains(n, "floorp"@)) by {
            reveal_strlit("waterfox");
            reveal_strlit("floorp");
            lemma_missing_char(n, "floorp"@, 1);
        }
    }
    assert forall|j: int| 0 <= j < 3 implies !browser_matches(#[trigger] t[j], n) by {}
    lemma_first_matching_at(t, n, 3);
}

proof fn lemma_detects_mullvad()
    ensures
        spec_detect_desktop_entry(None, Some("mullvad"@)) == "mullvad-browser"@,
{
    let n = "mullvad"@;
    assert(ascii_lowercase(n) == n) by {
        reveal_strlit("mullvad");
        assert(ascii_lowercase(n) =~= n);
    }
    let t = browser_table();
    assert(browser_matches(Browser::Mullvad, n)) by {
        lemma_self_contains(n);
        assert(Browser::Mullvad.spec_needles()[0] == n);
    }
    assert(!browser_matches(Browser::Zen, n)) by {
        assert(!contains(n, "zen"@)) by {
            reveal_strlit("mullvad");
            reveal_strlit("zen");
            lemma_missing_char(n, "zen"@, 0);
        }
    }
    assert(!browser_matches(Browser::LibreWolf, n)) by {
        assert(!contains(n, "librewolf"@)) by {
            reveal_strlit("mullvad");
            reveal_strlit("librewolf");
            lemma_longer_needle(n, "librewolf"@);
        }
    }
    assert(!browser_matches(Browser::Floorp, n)) by {
        assert(!contains(n, "floorp"@)) by {
            reveal_strlit("mullvad");
            reveal_strlit("floorp");
            lemma_missing_char(n, "floorp"@, 0);
        }
    }
    assert(!browser_matches(Browser::Waterfox, n)) by {
        assert(!contains(n, "waterfox"@)) by {
            reveal_strlit("mullvad");
            reveal_strlit("waterfox");
            lemma_longer_needle(n, "waterfox"@);
        }
    }
    assert forall|j: int| 0 <= j < 4 implies !browser_matches(#[trigger] t[j], n) by {}
    lemma_first_matching_at(t, n, 4);
}

proof fn lemma_detects_chromium()
    ensures
        spec_detect_desktop_entry(None, Some("chromium"@)) == "chromium"@,
{
    let n = "chromium"@;
    assert(ascii_lowercase(n) == n) by {
        reveal_strlit("chromium");
        assert(ascii_lowercase(n) =~= n);
    }
    let t = browser_table();
    assert(browser_matches(Browser::Chromium, n)) by {
        lemma_self_contains(n);
        assert(Browser::Chromium.spec_needles()[0] == n);
    }
    assert(!browser_matches(Browser::Zen, n)) by {
        assert(!contains(n, "zen"@)) by {
            reveal_strlit("chromium");
            reveal_strlit("zen");
            lemma_missing_char(n, "zen"@, 0);
        }
    }
    assert(!browser_matches(Browser::LibreWolf, n)) by {
        assert(!contains(n, "librewolf"@)) by {
            reveal_strlit("chromium");
            reveal_strlit("librewolf");
            lemma_longer_needle(n, "librewolf"@);
        }
    }
    assert(!browser_matches(Browser::Floorp, n)) by {
        assert(!contains(n, "floorp"@)) by {
            reveal_strlit("chromium");
            reveal_strlit("floorp");
            lemma_missing_char(n, "floorp"@, 0);
        }
    }
    assert(!browser_matches(Browser::Waterfox, n)) by {
        assert(!contains(n, "waterfox"@)) by {
            reveal_strlit("chromium");
            reveal_strlit("waterfox");
            lemma_missing_char(n, "waterfox"@, 0);
        }
    }
    assert(!browser_matches(Browser::Mullvad, n)) by {
        assert(!contains(n, "mullvad"@)) by {
            reveal_strlit("chromium");
            reveal_strlit("mullvad");
            lemma_missing_char(n, "mullvad"@, 2);
        }
    }
    assert forall|j: int| 0 <= j < 5 implies !browser_matches(#[trigger] t[j], n) by {}
    lemma_first_matching_at(t, n, 5);
}

proof fn lemma_detects_brave()
    ensures
        spec_detect_desktop_entry(None, Some("brave"@)) == "brave-browser"@,
{
    let n = "brave"@;
    assert(ascii_lowercase(n) == n) by {
        reveal_strlit("brave");
        assert(ascii_lowercase(n) =~= n);
    }
    let t = browser_table();
    assert(browser_matches(Browser::Brave, n)) by {
        lemma_self_contains(n);
        assert(Browser::Brave.spec_needles()[0] == n);
    }
    assert(!browser_matches(Browser::Zen, n)) by {
        assert(!contains(n, "zen"@)) by {
            reveal_strlit("brave");
            reveal_strlit("zen");
            lemma_missing_char(n, "zen"@, 0);
        }
    }
    assert(!browser_matches(Browser::LibreWolf, n)) by {
        assert(!contains(n, "librewolf"@)) by {
            reveal_strlit("brave");
            reveal_strlit("librewolf");
            lemma_longer_needle(n, "librewolf"@);
        }
    }
    assert(!browser_matches(Browser::Floorp, n)) by {
        assert(!contains(n, "floorp"@)) by {
            reveal_strlit("brave");
            reveal_strlit("floorp");
            lemma_longer_needle(n, "floorp"@);
        }
    }
    assert(!browser_matches(Browser::Waterfox, n)) by {
        assert(!contains(n, "waterfox"@)) by {
            reveal_strlit("brave");
            reveal_strlit("waterfox");
            lemma_longer_needle(n, "waterfox"@);
        }
    }
    assert(!browser_matches(Browser::Mullvad, n)) by {
        assert(!contains(n, "mullvad"@)) by {
            reveal_strlit("brave");
            reveal_strlit("mullvad");
            lemma_longer_needle(n, "mullvad"@);
        }
    }
    assert(!browser_matches(Browser::Chromium, n)) by {
        assert(!contains(n, "chromium"@)) by {
            reveal_strlit("brave");
            reveal_strlit("chromium");
            lemma_longer_needle(n, "chromium"@);
        }
    }
    assert forall|j: int| 0 <= j < 6 implies !browser_matches(#[trigger] t[j], n) by {}
    lemma_first_matching_at(t, n, 6);
}

proof fn lemma_detects_vivaldi()
    ensures
        spec_detect_desktop_entry(None, Some("vivaldi"@)) == "vivaldi-stable"@,
{
    let n = "vivaldi"@;
    assert(ascii_lowercase(n) == n) by {
        reveal_strlit("vivaldi");
        assert(ascii_lowercase(n) =~= n);
    }
    let t = browser_table();
    assert(browser_matches(Browser::Vivaldi, n)) by {
        lemma_self_contains(n);
        assert(Browser::Vivaldi.spec_needles()[0] == n);
    }
    assert(!browser_matches(Browser::Zen, n)) by {
        assert(!contains(n, "zen"@)) by {
            reveal_strlit("vivaldi");
            reveal_strlit("zen");
            lemma_missing_char(n, "zen"@, 0);
        }
    }
    assert(!browser_matches(Browser::LibreWolf, n)) by {
        assert(!contains(n, "librewolf"@)) by {
            reveal_strlit("vivaldi");
            reveal_strlit("librewolf");
            lemma_longer_needle(n, "librewolf"@);
        }
    }
    assert(!browser_matches(Browser::Floorp, n)) by {
        assert(!contains(n, "floorp"@)) by {
            reveal_strlit("vivaldi");
            reveal_strlit("floorp");
            lemma_missing_char(n, "floorp"@, 0);
        }
    }
    assert(!browser_matches(Browser::Waterfox, n)) by {
        assert(!contains(n, "waterfox"@)) by {
            reveal_strlit("vivaldi");
            reveal_strlit("waterfox");
            lemma_longer_needle(n, "waterfox"@);
        }
    }
    assert(!browser_matches(Browser::Mullvad, n)) by {
        assert(!contains(n, "mullvad"@)) by {
            reveal_strlit("vivaldi");
            reveal_strlit("mullvad");
            lemma_missing_char(n, "mullvad"@, 0);
        }
    }
    assert(!browser_matches(Browser::Chromium, n)) by {
        assert(!contains(n, "chromium"@)) by {
            reveal_strlit("vivaldi");
            reveal_strlit("chromium");
            lemma_longer_needle(n, "chromium"@);
        }
    }
    assert(!browser_matches(Browser::Brave, n)) by {
        assert(!contains(n, "brave"@)) by {
            reveal_strlit("vivaldi");
            reveal_strlit("brave");
            lemma_missing_char(n, "brave"@, 0);
        }
    }
    assert forall|j: int| 0 <= j < 7 implies !browser_matches(#[trigger] t[j], n) by {}
    lemma_first_matching_at(t, n, 7);
}

proof fn lemma_detects_microsoft_edge()
    ensures
        spec_detect_desktop_entry(None, Some("microsoft-edge"@)) == "microsoft-edge"@,
{
    let n = "microsoft-edge"@;
    assert(ascii_lowercase(n) == n) by {
        reveal_strlit("microsoft-edge");
        assert(ascii_lowercase(n) =~= n);
    }
    let t = browser_table();
    assert(browser_matches(Browser::Edge, n)) by {
        lemma_self_contains(n);
        assert(Browser::Edge.spec_needles()[0] == n);
    }
    assert(!browser_matches(Browser::Zen, n)) by {
        assert(!contains(n, "zen"@)) by {
            reveal_strlit("microsoft-edge");
            reveal_strlit("zen");
            lemma_missing_char(n, "zen"@, 0);
        }
    }
    assert(!browser_matches(Browser::LibreWolf, n)) by {
        assert(!contains(n, "librewolf"@)) by {
            reveal_strlit("microsoft-edge");
            reveal_strlit("librewolf");
            lemma_missing_char(n, "librewolf"@, 0);
        }
    }
    assert(!browser_matches(Browser::Floorp, n)) by {
        assert(!contains(n, "floorp"@)) by {
            reveal_strlit("microsoft-edge");
            reveal_strlit("floorp");
            lemma_missing_char(n, "floorp"@, 1);
        }
    }
    assert(!browser_matches(Browser::Waterfox, n)) by {
        assert(!contains(n, "waterfox"@)) by {
            reveal_strlit("microsoft-edge");
            reveal_strlit("waterfox");
            lemma_missing_char(n, "waterfox"@, 0);
        }
    }
    assert(!browser_matches(Browser::Mullvad, n)) by {
        assert(!contains(n, "mullvad"@)) by {
            reveal_strlit("microsoft-edge");
            reveal_strlit("mullvad");
            lemma_missing_char(n, "mullvad"@, 1);
        }
    }
    assert(!browser_matches(Browser::Chromium, n)) by {
        assert(!contains(n, "chromium"@)) by {
            reveal_strlit("microsoft-edge");
            reveal_strlit("chromium");
            lemma_missing_char(n, "chromium"@, 1);
        }
    }
    assert(!browser_matches(Browser::Brave, n)) by {
        assert(!contains(n, "brave"@)) by {
            reveal_strlit("microsoft-edge");
            reveal_strlit("brave");
            lemma_missing_char(n, "brave"@, 0);
        }
    }
    assert(!browser_matches(Browser::Vivaldi, n)) by {
        assert(!contains(n, "vivaldi"@)) by {
            reveal_strlit("microsoft-edge");
            reveal_strlit("vivaldi");
            lemma_missing_char(n, "vivaldi"@, 0);
        }
    }
    assert forall|j: int| 0 <= j < 8 implies !browser_matches(#[trigger] t[j], n) by {}
    lemma_first_matching_at(t, n, 8);
}

proof fn lemma_detects_msedge()
    ensures
        spec_detect_desktop_entry(None, Some("msedge"@)) == "microsoft-edge"@,
{
    let n = "msedge"@;
    assert(ascii_lowercase(n) == n) by {
        reveal_strlit("msedge");
        assert(ascii_lowercase(n) =~= n);
    }
    let t = browser_table();
    assert(browser_matches(Browser::Edge, n)) by {
        lemma_self_contains(n);
        assert(Browser::Edge.spec_needles()[1] == n);
    }
    assert(!browser_matches(Browser::Zen, n)) by {
        assert(!contains(n, "zen"@)) by {
            reveal_strlit("msedge");
            reveal_strlit("zen");
            lemma_missing_char(n, "zen"@, 0);
        }
    }
    assert(!browser_matches(Browser::LibreWolf, n)) by {
        assert(!contains(n, "librewolf"@)) by {
            reveal_strlit("msedge");
            reveal_strlit("librewolf");
            lemma_longer_needle(n, "librewolf"@);
        }
    }
    assert(!browser_matches(Browser::Floorp, n)) by {
        assert(!contains(n, "floorp"@)) by {
            reveal_strlit("msedge");
            reveal_strlit("floorp");
            lemma_missing_char(n, "floorp"@, 0);
        }
    }
    assert(!browser_matches(Browser::Waterfox, n)) by {
        assert(!contains(n, "waterfox"@)) by {
            reveal_strlit("msedge");
            reveal_strlit("waterfox");
            lemma_longer_needle(n, "waterfox"@);
        }
    }
    assert(!browser_matches(Browser::Mullvad, n)) by {
        assert(!contains(n, "mullvad"@)) by {
            reveal_strlit("msedge");
            reveal_strlit("mullvad");
            lemma_longer_needle(n, "mullvad"@);
        }
    }
    assert(!browser_matches(Browser::Chromium, n)) by {
        assert(!contains(n, "chromium"@)) by {
            reveal_strlit("msedge");
            reveal_strlit("chromium");
            lemma_longer_needle(n, "chromium"@);
        }
    }
    assert(!browser_matches(Browser::Brave, n)) by {
        assert(!contains(n, "brave"@)) by {
            reveal_strlit("msedge");
            reveal_strlit("brave");
            lemma_missing_char(n, "brave"@, 0);
        }
    }
    assert(!browser_matches(Browser::Vivaldi, n)) by {
        assert(!contains(n, "vivaldi"@)) by {
            reveal_strlit("msedge");
            reveal_strlit("vivaldi");
            lemma_longer_needle(n, "vivaldi"@);
        }
    }
    assert forall|j: int| 0 <= j < 8 implies !browser_matches(#[trigger] t[j], n) by {}
    lemma_first_matching_at(t, n, 8);
}

proof fn lemma_detects_google_chrome()
    ensures
        spec_detect_desktop_entry(None, Some("google-chrome"@)) == "google-chrome"@,
{
    let n = "google-chrome"@;
    assert(ascii_lowercase(n) == n) by {
        reveal_strlit("google-chrome");
        assert(ascii_lowercase(n) =~= n);
    }
    let t = browser_table();
    assert(browser_matches(Browser::Chrome, n)) by {
        lemma_self_contains(n);
        assert(Browser::Chrome.spec_needles()[0] == n);
    }
    assert(!browser_matches(Browser::Zen, n)) by {
        assert(!contains(n, "zen"@)) by {
            reveal_strlit("google-chrome");
            reveal_strlit("zen");
            lemma_missing_char(n, "zen"@, 0);
        }
    }
    assert(!browser_matches(Browser::LibreWolf, n)) by {
        assert(!contains(n, "librewolf"@)) by {
            reveal_strlit("google-chrome");
            reveal_strlit("librewolf");
            lemma_missing_char(n, "librewolf"@, 1);
        }
    }
    assert(!browser_matches(Browser::Floorp, n)) by {
        assert(!contains(n, "floorp"@)) by {
            reveal_strlit("google-chrome");
            reveal_strlit("floorp");
            lemma_missing_char(n, "floorp"@, 0);
        }
    }
    assert(!browser_matches(Browser::Waterfox, n)) by {
        assert(!contains(n, "waterfox"@)) by {
            reveal_strlit("google-chrome");
            reveal_strlit("waterfox");
            lemma_missing_char(n, "waterfox"@, 0);
        }
    }
    assert(!browser_matches(Browser::Mullvad, n)) by {
        assert(!contains(n, "mullvad"@)) by {
            reveal_strlit("google-chrome");
            reveal_strlit("mullvad");
            lemma_missing_char(n, "mullvad"@, 1);
        }
    }
    assert(!browser_matches(Browser::Chromium, n)) by {
        assert(!contains(n, "chromium"@)) by {
            reveal_strlit("google-chrome");
            reveal_strlit("chromium");
            lemma_missing_char(n, "chromium"@, 5);
        }
    }
    assert(!browser_matches(Browser::Brave, n)) by {
        assert(!contains(n, "brave"@)) by {
            reveal_strlit("google-chrome");
            reveal_strlit("brave");
            lemma_missing_char(n, "brave"@, 0);
        }
    }
    assert(!browser_matches(Browser::Vivaldi, n)) by {
        assert(!contains(n, "vivaldi"@)) by {
            reveal_strlit("google-chrome");
            reveal_strlit("vivaldi");
            lemma_missing_char(n, "vivaldi"@, 0);
        }
    }
    assert(!browser_matches(Browser::Edge, n)) by {
        assert(!contains(n, "microsoft-edge"@)) by {
            reveal_strlit("google-chrome");
            reveal_strlit("microsoft-edge");
            lemma_longer_needle(n, "microsoft-edge"@);
        }
        assert(!contains(n, "msedge"@)) by {
            reveal_strlit("google-chrome");
            reveal_strlit("msedge");
            lemma_missing_char(n, "msedge"@, 1);
        }
    }
    assert forall|j: int| 0 <= j < 9 implies !browser_matches(#[trigger] t[j], n) by {}
    lemma_first_matching_at(t, n, 9);
}

proof fn lemma_detects_chrome()
    ensures
        spec_detect_desktop_entry(None, Some("chrome"@)) == "google-chrome"@,
{
    let n = "chrome"@;
    assert(ascii_lowercase(n) == n) by {
        reveal_strlit("chrome");
        assert(ascii_lowercase(n) =~= n);
    }
    let t = browser_table();
    assert(browser_matches(Browser::Chrome, n)) by {
        lemma_self_contains(n);
        assert(Browser::Chrome.spec_needles()[1] == n);
    }
    assert(!browser_matches(Browser::Zen, n)) by {
        assert(!contains(n, "zen"@)) by {
            reveal_strlit("chrome");
            reveal_strlit("zen");
            lemma_missing_char(n, "zen"@, 0);
        }
    }
    assert(!browser_matches(Browser::LibreWolf, n)) by {
        assert(!contains(n, "librewolf"@)) by {
            reveal_strlit("chrome");
            reveal_strlit("librewolf");
            lemma_longer_needle(n, "librewolf"@);
        }
    }
    assert(!browser_matches(Browser::Floorp, n)) by {
        assert(!contains(n, "floorp"@)) by {
            reveal_strlit("chrome");
            reveal_strlit("floorp");
            lemma_missing_char(n, "floorp"@, 0);
        }
    }
    assert(!browser_matches(Browser::Waterfox, n)) by {
        assert(!contains(n, "waterfox"@)) by {
            reveal_strlit("chrome");
            reveal_strlit("waterfox");
            lemma_longer_needle(n, "waterfox"@);
        }
    }
    assert(!browser_matches(Browser::Mullvad, n)) by {
        assert(!contains(n, "mullvad"@)) by {
            reveal_strlit("chrome");
            reveal_strlit("mullvad");
            lemma_longer_needle(n, "mullvad"@);
        }
    }
    assert(!browser_matches(Browser::Chromium, n)) by {
        assert(!contains(n, "chromium"@)) by {
            reveal_strlit("chrome");
            reveal_strlit("chromium");
            lemma_longer_needle(n, "chromium"@);
        }
    }
    assert(!browser_matches(Browser::Brave, n)) by {
        assert(!contains(n, "brave"@)) by {
            reveal_strlit("chrome");
            reveal_strlit("brave");
            lemma_missing_char(n, "brave"@, 0);
        }
    }
    assert(!browser_matches(Browser::Vivaldi, n)) by {
        assert(!contains(n, "vivaldi"@)) by {
            reveal_strlit("chrome");
            reveal_strlit("vivaldi");
            lemma_longer_needle(n, "vivaldi"@);
        }
    }
    assert(!browser_matches(Browser::Edge, n)) by {
        assert(!contains(n, "microsoft-edge"@)) by {
            reveal_strlit("chrome");
            reveal_strlit("microsoft-edge");
            lemma_longer_needle(n, "microsoft-edge"@);
        }
        assert(!contains(n, "msedge"@)) by {
            reveal_strlit("chrome");
            reveal_strlit("msedge");
            lemma_missing_char(n, "msedge"@, 1);
        }
    }
    assert forall|j: int| 0 <= j < 9 implies !browser_matches(#[trigger] t[j], n) by {}
    lemma_first_matching_at(t, n, 9);
}

proof fn lemma_detects_opera()
    ensures
        spec_detect_desktop_entry(None, Some("opera"@)) == "opera"@,
{
    let n = "opera"@;
    assert(ascii_lowercase(n) == n) by {
        reveal_strlit("opera");
        assert(ascii_lowercase(n) =~= n);
    }
    let t = browser_table();
    assert(browser_matches(Browser::Opera, n)) by {
        lemma_self_contains(n);
        assert(Browser::Opera.spec_needles()[0] == n);
    }
    assert(!browser_matches(Browser::Zen, n)) by {
        assert(!contains(n, "zen"@)) by {
            reveal_strlit("opera");
            reveal_strlit("zen");
            lemma_missing_char(n, "zen"@, 0);
        }
    }
    assert(!browser_matches(Browser::LibreWolf, n)) by {
        assert(!contains(n, "librewolf"@)) by {
            reveal_strlit("opera");
            reveal_strlit("librewolf");
            lemma_longer_needle(n, "librewolf"@);
        }
    }
    assert(!browser_matches(Browser::Floorp, n)) by {
        assert(!contains(n, "floorp"@)) by {
            reveal_strlit("opera");
            reveal_strlit("floorp");
            lemma_longer_needle(n, "floorp"@);
        }
    }
    assert(!browser_matches(Browser::Waterfox, n)) by {
        assert(!contains(n, "waterfox"@)) by {
            reveal_strlit("opera");
            reveal_strlit("waterfox");
            lemma_longer_needle(n, "waterfox"@);
        }
    }
    assert(!browser_matches(Browser::Mullvad, n)) by {
        assert(!contains(n, "mullvad"@)) by {
            reveal_strlit("opera");
            reveal_strlit("mullvad");
            lemma_longer_needle(n, "mullvad"@);
        }
    }
    assert(!browser_matches(Browser::Chromium, n)) by {
        assert(!contains(n, "chromium"@)) by {
            reveal_strlit("opera");
            reveal_strlit("chromium");
            lemma_longer_needle(n, "chromium"@);
        }
    }
    assert(!browser_matches(Browser::Brave, n)) by {
        assert(!contains(n, "brave"@)) by {
            reveal_strlit("opera");
            reveal_strlit("brave");
            lemma_missing_char(n, "brave"@, 0);
        }
    }
    assert(!browser_matches(Browser::Vivaldi, n)) by {
        assert(!contains(n, "vivaldi"@)) by {
            reveal_strlit("opera");
            reveal_strlit("vivaldi");
            lemma_longer_needle(n, "vivaldi"@);
        }
    }
    assert(!browser_matches(Browser::Edge, n)) by {
        assert(!contains(n, "microsoft-edge"@)) by {
            reveal_strlit("opera");
            reveal_strlit("microsoft-edge");
            lemma_longer_needle(n, "microsoft-edge"@);
        }
        assert(!contains(n, "msedge"@)) by {
            reveal_strlit("opera");
            reveal_strlit("msedge");
            lemma_longer_needle(n, "msedge"@);
        }
    }
    assert(!browser_matches(Browser::Chrome, n)) by {
        assert(!contains(n, "google-chrome"@)) by {
            reveal_strlit("opera");
            reveal_strlit("google-chrome");
            lemma_longer_needle(n, "google-chrome"@);
        }
        assert(!contains(n, "chrome"@)) by {
            reveal_strlit("opera");
            reveal_strlit("chrome");
            lemma_longer_needle(n, "chrome"@);
        }
    }
    assert forall|j: int| 0 <= j < 10 implies !browser_matches(#[trigger] t[j], n) by {}
    lemma_first_matching_at(t, n, 10);
}

proof fn lemma_detects_firefox()
    ensures
        spec_detect_desktop_entry(None, Some("firefox"@)) == "firefox"@,
{
    let n = "firefox"@;
    assert(ascii_lowercase(n) == n) by {
        reveal_strlit("firefox");
        assert(ascii_lowercase(n) =~= n);
    }
    let t = browser_table();
    assert(browser_matches(Browser::Firefox, n)) by {
        lemma_self_contains(n);
        assert(Browser::Firefox.spec_needles()[0] == n);
    }
    assert(!browser_matches(Browser::Zen, n)) by {
        assert(!contains(n, "zen"@)) by {
            reveal_strlit("firefox");
            reveal_strlit("zen");
            lemma_missing_char(n, "zen"@, 0);
        }
    }
    assert(!browser_matches(Browser::LibreWolf, n)) by {
        assert(!contains(n, "librewolf"@)) by {
            reveal_strlit("firefox");
            reveal_strlit("librewolf");
            lemma_longer_needle(n, "librewolf"@);
        }
    }
    assert(!browser_matches(Browser::Floorp, n)) by {
        assert(!contains(n, "floorp"@)) by {
            reveal_strlit("firefox");
            reveal_strlit("floorp");
            lemma_missing_char(n, "floorp"@, 1);
        }
    }
    assert(!browser_matches(Browser::Waterfox, n)) by {
        assert(!contains(n, "waterfox"@)) by {
            reveal_strlit("firefox");
            reveal_strlit("waterfox");
            lemma_longer_needle(n, "waterfox"@);
        }
    }
    assert(!browser_matches(Browser::Mullvad, n)) by {
        assert(!contains(n, "mullvad"@)) by {
            reveal_strlit("firefox");
            reveal_strlit("mullvad");
            lemma_missing_char(n, "mullvad"@, 0);
        }
    }
    assert(!browser_matches(Browser::Chromium, n)) by {
        assert(!contains(n, "chromium"@)) by {
            reveal_strlit("firefox");
            reveal_strlit("chromium");
            lemma_longer_needle(n, "chromium"@);
        }
    }
    assert(!browser_matches(Browser::Brave, n)) by {
        assert(!contains(n, "brave"@)) by {
            reveal_strlit("firefox");
            reveal_strlit("brave");
            lemma_missing_char(n, "brave"@, 0);
        }
    }
    assert(!browser_matches(Browser::Vivaldi, n)) by {
        assert(!contains(n, "vivaldi"@)) by {
            reveal_strlit("firefox");
            reveal_strlit("vivaldi");
            lemma_missing_char(n, "vivaldi"@, 0);
        }
    }
    assert(!browser_matches(Browser::Edge, n)) by {
        assert(!contains(n, "microsoft-edge"@)) by {
            reveal_strlit("firefox");
            reveal_strlit("microsoft-edge");
            lemma_longer_needle(n, "microsoft-edge"@);
        }
        assert(!contains(n, "msedge"@)) by {
            reveal_strlit("firefox");
            reveal_strlit("msedge");
            lemma_missing_char(n, "msedge"@, 0);
        }
    }
    assert(!browser_matches(Browser::Chrome, n)) by {
        assert(!contains(n, "google-chrome"@)) by {
            reveal_strlit("firefox");
            reveal_strlit("google-chrome");
            lemma_longer_needle(n, "google-chrome"@);
        }
        assert(!contains(n, "chrome"@)) by {
            reveal_strlit("firefox");
            reveal_strlit("chrome");
            lemma_missing_char(n, "chrome"@, 0);
        }
    }
    assert(!browser_matches(Browser::Opera, n)) by {
        assert(!contains(n, "opera"@)) by {
            reveal_strlit("firefox");
            reveal_strlit("opera");
            lemma_missing_char(n, "opera"@, 1);
        }
    }
    assert forall|j: int| 0 <= j < 11 implies !browser_matches(#[trigger] t[j], n) by {}
    lemma_first_matching_at(t, n, 11);
}

/// The known browser process names are recognised as their families: each
/// needle of the family table, taken as the parent process name, is detected
/// as that family's `.desktop` entry (most-specific needles first, so
/// "chromium" is Chromium, "chrome" Google Chrome and "msedge" Microsoft
/// Edge).
pub proof fn lemma_known_process_names()
    ensures
        spec_detect_desktop_entry(None, Some("zen"@)) == "zen"@,
        spec_detect_desktop_entry(None, Some("librewolf"@)) == "librewolf"@,
        spec_detect_desktop_entry(None, Some("floorp"@)) == "floorp"@,
        spec_detect_desktop_entry(None, Some("waterfox"@)) == "waterfox"@,
        spec_detect_desktop_entry(None, Some("mullvad"@)) == "mullvad-browser"@,
        spec_detect_desktop_entry(None, Some("chromium"@)) == "chromium"@,
        spec_detect_desktop_entry(None, Some("brave"@)) == "brave-browser"@,
        spec_detect_desktop_entry(None, Some("vivaldi"@)) == "vivaldi-stable"@,
        spec_detect_desktop_entry(None, Some("microsoft-edge"@)) == "microsoft-edge"@,
        spec_detect_desktop_entry(None, Some("msedge"@)) == "microsoft-edge"@,
        spec_detect_desktop_entry(None, Some("google-chrome"@)) == "google-chrome"@,
        spec_detect_desktop_entry(None, Some("chrome"@)) == "google-chrome"@,
        spec_detect_desktop_entry(None, Some("opera"@)) == "opera"@,
        spec_detect_desktop_entry(None, Some("firefox"@)) == "firefox"@,
{
    lemma_detects_zen();
    lemma_detects_librewolf();
    lemma_detects_floorp();
    lemma_detects_waterfox();
    lemma_detects_mullvad();
    lemma_detects_chromium();
    lemma_detects_brave();
    lemma_detects_vivaldi();
    lemma_detects_microsoft_edge();
    lemma_detects_msedge();
    lemma_detects_google_chrome();
    lemma_detects_chrome();
    lemma_detects_opera();
    lemma_detects_firefox();
}

/// Detection ignores ASCII case in the parent process name.
pub proof fn lemma_detection_ignores_case(env_override: Option<Seq<char>>, comm: Seq<char>)
    ensures
        spec_detect_desktop_entry(env_override, Some(comm)) == spec_detect_desktop_entry(
            env_override,
            Some(ascii_lowercase(comm)),
        ),
{
    assert(ascii_lowercase(ascii_lowercase(comm)) =~= ascii_lowercase(comm));
}

/// A non-empty override is the detected entry, whatever the parent process.
pub proof fn lemma_override_wins(v: Seq<char>, parent: Option<Seq<char>>)
    requires
        v.len() > 0,
    ensures
        spec_detect_desktop_entry(Some(v), parent) == v,
{
}

} // verus!
