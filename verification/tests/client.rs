use forwarder::client::{client, from, lookup, Client, ClientError};

#[test]
fn client_test_lookup() {
    assert_eq!(
        lookup("Spotify/8.6.88.1104 Android/30 (SM-A525F)").unwrap(),
        Client::new("Spotify")
    );
    assert_eq!(
        lookup("Spotify/8.6.82 iOS/15.1 (iPhone12,1)").unwrap(),
        Client::new("Spotify")
    );
    assert_eq!(
        lookup("AmazonMusic/9.16.0 iPhone12,1 CFNetwork/1128.0.1 Darwin/19.6.0").unwrap(),
        Client::new("Amazon Music Podcasts")
    );
    assert_eq!(lookup("Something Random"), None);
    assert_eq!(
        lookup("UA: Mozilla/5.0 (Linux; Android 10; Pixel 3a XL Build/QQ3A.200805.001; wv) AppleWebKit/537.36 (KHTML, like Gecko) Version/4.0 Chrome/86.0.4240.198 Mobile Safari/537.36 GSA/11.38.8.23.arm64").unwrap(),
        Client::new("Google Podcasts Android")
    );
    assert_eq!(
        lookup("AppleCoreMedia/1.0.0.21G72 (Macintosh; U; Intel Mac OS X 12_5; en_us)")
            .unwrap(),
        Client::new("Apple Podcasts - via app")
    );

    assert_eq!(
        lookup("Expanse, a Palo Alto Networks company, searches across the global IPv4 space multiple times per day to identify customers&#39; presences on the Internet. If you would like to be excluded from our scans, please send IP addresses/domains to: scaninfo@paloaltonetworks.com")
            .unwrap(),
        Client::new("Expanse [bot]")
    );
}

#[test]
fn user_agent_test_lookup() {
    assert_eq!(
        lookup("Spotify/8.6.88.1104 Android/30 (SM-A525F)").map(|c| c.name().to_string()),
        Some("Spotify".to_string())
    );
    assert_eq!(
        lookup("Spotify/8.6.82 iOS/15.1 (iPhone12,1)").map(|c| c.name().to_string()),
        Some("Spotify".to_string())
    );
}

#[test]
fn spotify_is_no_bot() {
    let found = lookup("Spotify/8.6.88.1104 Android/30 (SM-A525F)").unwrap();
    assert_eq!(found.name(), "Spotify");
    assert!(!found.is_bot());
}

#[test]
fn semrush_is_a_bot() {
    let found = lookup("SemrushBot").unwrap();
    assert!(found.name().contains("Bot"));
    assert_eq!(found.name(), "SEMrushBot");
    assert!(found.is_bot());
}

#[test]
fn bot_is_told_from_the_name_in_any_case() {
    assert!(Client::new("Expanse [bot]").is_bot());
    assert!(Client::new("BingBot").is_bot());
    assert!(Client::new("ROBOTS").is_bot());
    assert!(Client::new("bOt").is_bot());
    assert!(!Client::new("Spotify").is_bot());
    assert!(!Client::new("bo t").is_bot());
    assert!(!Client::new("bo").is_bot());
    assert!(!Client::new("").is_bot());
    // The user agent says "bot", the name does not.
    assert!(!lookup("StitcherBot").unwrap().is_bot());
    assert_eq!(lookup("StitcherBot").unwrap().name(), "Stitcher");
}

#[test]
fn pattern_may_stand_anywhere_in_the_user_agent() {
    assert_eq!(lookup("Mozilla/5.0 (compatible; Googlebot/2.1)").unwrap().name(), "Google Podcasts and Search [bot]");
    assert_eq!(lookup("xx Overcast/3.0 yy").unwrap().name(), "Overcast");
}

#[test]
fn first_entry_of_the_table_wins() {
    // Both `axios/0.19.1` and `axios` stand in it; the former comes first.
    assert_eq!(lookup("axios/0.19.1").unwrap().name(), "radio.com");
    assert_eq!(lookup("axios/1.0").unwrap().name(), "Script [bot]");
    // `iTunes/` comes before `Podcasts/`.
    assert_eq!(lookup("Podcasts/1.0 iTunes/12").unwrap().name(), "Apple iTunes");
    // Patterns are case-sensitive.
    assert_eq!(lookup("itunes").unwrap().name(), "Apple iTunes Store");
    assert_eq!(lookup("SPOTIFY/1"), None);
}

#[test]
fn lookup_gives_the_same_answer_every_time() {
    let agents = ["Spotify/1", "Overcast/2", "nothing known", "Spotify/1", "Podcasts/1"];
    let first: Vec<_> = agents.iter().map(|a| lookup(a)).collect();
    let mut backwards: Vec<_> = agents.iter().rev().map(|a| lookup(a)).collect();
    backwards.reverse();
    assert_eq!(first, backwards);
    assert_eq!(first[0], first[3]);
}

#[test]
fn lookup_reads_patterns_outside_ascii() {
    assert_eq!(lookup("Подкасты/1.0").unwrap().name(), "Apple Podcasts - via app");
    assert_eq!(lookup("播客/2").unwrap().name(), "Apple Podcasts - via app");
}

#[test]
fn from_tells_why_no_client_is_known() {
    assert_eq!(from(None), Err(ClientError::MissingUserAgent));
    assert_eq!(from(Some("Something Random")), Err(ClientError::UnknownUserAgent));
    assert_eq!(from(Some("Spotify/1")), Ok(Client::new("Spotify")));
    assert_eq!(ClientError::MissingUserAgent.message(), "Cannot read user agent from request");
    assert_eq!(ClientError::UnknownUserAgent.message(), "Cannot read user agent");
}

#[test]
fn client_falls_back_to_the_unknown_client() {
    assert_eq!(client(None), Client::new("Unknown Podcast Client"));
    assert_eq!(client(Some("Something Random")).name(), "Unknown Podcast Client");
    assert!(!client(Some("Something Random")).is_bot());
    assert_eq!(client(Some("Spotify/1")).name(), "Spotify");
}
