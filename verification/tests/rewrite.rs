use forwarder::escape::{escape_markup, percent_decode, unescape_markup};
use forwarder::rss::{set_prefix, Replacer};
use forwarder::text::{chars_of, replace_all, string_of};
use forwarder::weburl::{is_audio_path, Url};

fn replacer(base: &str, prefix: Option<&str>) -> Replacer {
    Replacer::new(
        Url::parse("http://example.com/podcast").unwrap(),
        Url::parse(base).unwrap(),
        prefix,
    )
}

#[test]
fn enclosure_is_rewritten_without_prefix() {
    let input = r#"<enclosure url="https://example.com/podcast.mp3" type="audio/mpeg" length="96950025"/>"#;
    let output = replacer("http://foo.org", None).replace(input.to_string());
    assert!(output.contains(
        r#"<enclosure url="http://foo.org/podcast.mp3?ref=https%3A%2F%2Fexample.com%2Fpodcast.mp3""#
    ));
}

#[test]
fn forward_link_with_prefix() {
    let original = Url::parse("https://example.com/podcast1.mp3").unwrap();
    assert_eq!(
        replacer("https://example.org", Some("/r")).build_forward(&original),
        Some(
            "https://example.org/r/podcast1.mp3?ref=https%3A%2F%2Fexample.com%2Fpodcast1.mp3"
                .to_string()
        )
    );
}

#[test]
fn forward_link_is_appended_to_the_query_of_the_base_and_escaped() {
    let original = Url::parse("https://example.com/a.mp3?x=1&y=2").unwrap();
    assert_eq!(
        replacer("https://example.org/feed?keep=1", Some("/r")).build_forward(&original),
        Some(
            "https://example.org/r/a.mp3?keep=1&amp;ref=https%3A%2F%2Fexample.com%2Fa.mp3%3Fx%3D1%26y%3D2"
                .to_string()
        )
    );
}

#[test]
fn every_occurrence_of_an_address_is_replaced() {
    let input = "<enclosure url=\"https://example.com/a.mp3\"/>\n<guid>https://example.com/a.mp3</guid>\n<enclosure url=\"https://example.com/a.mp3\"/>\n";
    let link = "https://example.org/r/a.mp3?ref=https%3A%2F%2Fexample.com%2Fa.mp3";
    let expected = format!(
        "<enclosure url=\"{link}\"/>\n<guid>{link}</guid>\n<enclosure url=\"{link}\"/>\n"
    );
    assert_eq!(replacer("https://example.org", Some("/r")).replace(input.to_string()), expected);
}

#[test]
fn aac_is_forwarded_and_other_endings_are_not() {
    let input = "<enclosure url=\"https://example.com/a.aac\"/>\n<enclosure url=\"https://example.com/b.ogg\"/>\n<enclosure url=\"https://example.com/cmp3\"/>\n<enclosure url=\"https://example.com/d.MP3\"/>\n";
    let expected = "<enclosure url=\"https://example.org/a.aac?ref=https%3A%2F%2Fexample.com%2Fa.aac\"/>\n<enclosure url=\"https://example.com/b.ogg\"/>\n<enclosure url=\"https://example.org/cmp3?ref=https%3A%2F%2Fexample.com%2Fcmp3\"/>\n<enclosure url=\"https://example.com/d.MP3\"/>\n";
    assert_eq!(replacer("https://example.org", None).replace(input.to_string()), expected);
}

#[test]
fn only_web_addresses_are_forwarded() {
    let input = "<enclosure url=\"ftp://example.com/a.mp3\"/>\n<enclosure url=\"file:///a.mp3\"/>\n<enclosure url=\"mailto:a.mp3\"/>\n<enclosure url=\"example.com/a.mp3\"/>\n<enclosure url=\"/a.mp3\"/>\n";
    let r = replacer("https://example.org", Some("/r"));
    assert_eq!(r.extract(input).len(), 5);
    assert_eq!(r.extract_mp3s(input), Vec::<Url>::new());
    assert_eq!(r.replace(input.to_string()), input);
}

#[test]
fn query_of_the_original_does_not_count_for_the_ending() {
    let r = replacer("https://example.org", None);
    assert_eq!(r.rewrite("https://example.com/a.txt?file=b.mp3"), None);
    assert!(r.rewrite("https://example.com/a.mp3?file=b.txt").is_some());
}

#[test]
fn address_is_replaced_as_it_stands_in_the_feed() {
    // The feed writes the host in capitals; the reference is the URL itself.
    let input = r#"<enclosure url="HTTPS://EXAMPLE.COM/a.mp3"/>"#;
    let expected = r#"<enclosure url="https://example.org/a.mp3?ref=https%3A%2F%2Fexample.com%2Fa.mp3"/>"#;
    assert_eq!(replacer("https://example.org", None).replace(input.to_string()), expected);
}

#[test]
fn feed_without_enclosure_keeps_its_text() {
    let input = "<rss><channel><title>T</title></channel></rss>";
    assert_eq!(replacer("https://example.org", None).replace(input.to_string()), input);
    assert_eq!(replacer("https://example.org", None).replace(String::new()), "");
}

#[test]
fn links_and_enclosures_are_replaced_together() {
    let input = "<link>https://feed.example/show</link>\n<enclosure url=\"https://example.com/a.mp3\"/>\n<link>x</link>";
    let expected = "<link>http://example.com/podcast</link>\n<enclosure url=\"https://example.org/r/a.mp3?ref=https%3A%2F%2Fexample.com%2Fa.mp3\"/>\n<link>http://example.com/podcast</link>";
    let r = replacer("https://example.org", Some("/r"));
    assert_eq!(r.replace(input.to_string()), expected);
    assert_eq!(r.extract_links(input), vec!["https://feed.example/show", "x"]);
    assert_eq!(r.replace_links(input), "<link>http://example.com/podcast</link>\n<enclosure url=\"https://example.com/a.mp3\"/>\n<link>http://example.com/podcast</link>");
}

#[test]
fn link_elements_get_the_address_of_the_web_site() {
    let r = replacer("https://example.org", None);
    let input = "<link>https://a.example/1</link><title>T</title><link>https://b.example/2</link>";
    assert_eq!(
        r.replace_links(input),
        "<link>http://example.com/podcast</link><title>T</title><link>http://example.com/podcast</link>"
    );
}

#[test]
fn two_enclosures_on_one_line_are_both_rewritten() {
    let input = r#"<enclosure url="https://a.example/1.mp3"/><enclosure url="https://a.example/2.mp3"/>"#;
    let r = replacer("https://example.org", Some("/r"));
    assert_eq!(r.extract(input), vec!["https://a.example/1.mp3", "https://a.example/2.mp3"]);
    assert_eq!(
        r.replace(input.to_string()),
        r#"<enclosure url="https://example.org/r/1.mp3?ref=https%3A%2F%2Fa.example%2F1.mp3"/><enclosure url="https://example.org/r/2.mp3?ref=https%3A%2F%2Fa.example%2F2.mp3"/>"#
    );
}

#[test]
fn replacement_made_again_changes_nothing_where_no_address_is_left() {
    let input = "<enclosure url=\"https://example.com/a.mp3\"/>\n<link>x</link>";
    let r = replacer("https://example.org", Some("/r"));
    let once = r.replace(input.to_string());
    let key = "https://example.com/a.mp3";
    let link = r.rewrite(key).unwrap();
    assert!(!once.contains(key));
    assert_eq!(
        string_of(&replace_all(&chars_of(&once), &chars_of(key), &chars_of(&link))),
        once
    );
}

#[test]
fn forwarding_link_is_itself_forwardable() {
    // The whole rewriting is not idempotent: its links end like audio files.
    let input = "<enclosure url=\"https://example.com/a.mp3\"/>";
    let r = replacer("https://example.org", Some("/r"));
    let once = r.replace(input.to_string());
    assert_ne!(r.replace(once.clone()), once);
}

#[test]
fn replacer_keeps_its_addresses() {
    let r = replacer("https://example.org", Some("/r"));
    assert_eq!(r.link_url().as_str(), "http://example.com/podcast");
    assert_eq!(r.forward_url().as_str(), "https://example.org/");
}

#[test]
fn set_prefix_puts_the_prefix_before_the_path() {
    let mut url = Url::parse("https://example.com/a/b.mp3?x=1").unwrap();
    set_prefix(&mut url, "/forward");
    assert_eq!(url.as_str(), "https://example.com/forward/a/b.mp3?x=1");
    assert_eq!(url.path(), "/forward/a/b.mp3");
    assert_eq!(url.scheme(), "https");
}

#[test]
fn changes_are_told_to_fit() {
    let url = Url::parse("https://example.com/a.mp3").unwrap();
    assert!(url.path_fits_in("/b.mp3"));
    assert!(url.path_fits_in(""));
    assert!(url.pair_fits_in("ref", "https://example.com/a.mp3"));
    assert_eq!(url.with_path("/b c.mp3").unwrap().as_str(), "https://example.com/b%20c.mp3");
}

#[test]
fn change_that_leaves_no_url_gives_none() {
    // Behind a scheme without a host, a path with two slashes reads as a
    // host, and this one as a host with a port that is none.
    let base = Url::parse("foo:/x").unwrap();
    assert_eq!(base.with_path("//:x.mp3"), None);
    let input = r#"<enclosure url="https://example.com//:x.mp3"/>"#;
    let r = Replacer::new(Url::parse("http://example.com/podcast").unwrap(), base, None);
    assert_eq!(r.replace(input.to_string()), input);
    assert_eq!(r.build_forward(&Url::parse("https://example.com//:x.mp3").unwrap()), None);
}

#[test]
fn change_is_read_again_from_what_it_leaves() {
    // The path `//b` behind `foo:` reads as the host `b`.
    let mut url = Url::parse("foo:/a").unwrap();
    let moved = url.with_path("//b").unwrap();
    assert_eq!(moved.as_str(), "foo://b");
    assert_eq!(moved.path(), "");
    assert_eq!(moved.query_pairs(), Vec::<(String, String)>::new());
    set_prefix(&mut url, "//b");
    assert_eq!(Url::parse(url.as_str()), Some(url.duplicate()));
}

#[test]
fn url_parts_are_those_of_the_parsed_url() {
    let url = Url::parse("HTTPS://Example.com:443/a b.mp3?q=1#f").unwrap();
    assert_eq!(url.as_str(), "https://example.com/a%20b.mp3?q=1#f");
    assert_eq!(url.scheme(), "https");
    assert_eq!(url.path(), "/a%20b.mp3");
    assert!(url.is_forwardable());
    assert_eq!(url.duplicate(), url);
    assert_eq!(Url::parse("example.com/a.mp3"), None);
    assert_eq!(Url::parse(""), None);
    assert!(!Url::parse("ftp://example.com/a.mp3").unwrap().is_forwardable());
    assert!(!Url::parse("https://example.com/a.wav").unwrap().is_forwardable());
    assert_eq!(
        Url::parse("https://example.org/?a=1&b=x%20y&c").unwrap().query_pairs(),
        vec![
            ("a".to_string(), "1".to_string()),
            ("b".to_string(), "x y".to_string()),
            ("c".to_string(), "".to_string())
        ]
    );
    assert_eq!(
        Url::parse("https://example.org/a?x=1").unwrap().with_query_pair("k", "v w&z").unwrap().as_str(),
        "https://example.org/a?x=1&k=v+w%26z"
    );
}

#[test]
fn audio_path_is_told_by_its_ending() {
    assert!(is_audio_path("/a.mp3"));
    assert!(is_audio_path("/a.aac"));
    assert!(is_audio_path("mp3"));
    assert!(is_audio_path("/xmp3"));
    assert!(!is_audio_path("/a.mp3/"));
    assert!(!is_audio_path("/a.Mp3"));
    assert!(!is_audio_path("p3"));
    assert!(!is_audio_path(""));
}

#[test]
fn markup_is_escaped_and_unescaped() {
    assert_eq!(escape_markup("a&b<c>d\"e'f"), "a&amp;b&lt;c&gt;d\"e'f");
    assert_eq!(escape_markup("plain é"), "plain é");
    assert_eq!(escape_markup(""), "");
    assert_eq!(unescape_markup("a&amp;b&lt;c&gt;d&quot;e&#39;f&#x41;"), "a&b<c>d\"e'fA");
    assert_eq!(unescape_markup("a&b &unknown; &amp"), "a&b &unknown; &amp");
}

#[test]
fn percent_decoding_follows_the_escapes() {
    assert_eq!(percent_decode("a%20b%2Fc"), Some("a b/c".to_string()));
    assert_eq!(percent_decode("a+b"), Some("a+b".to_string()));
    assert_eq!(percent_decode("100%"), Some("100%".to_string()));
    assert_eq!(percent_decode("%4"), Some("%4".to_string()));
    assert_eq!(percent_decode("%zz%41"), Some("%zzA".to_string()));
    assert_eq!(percent_decode("%%41"), Some("%A".to_string()));
    assert_eq!(percent_decode("%C3%A9"), Some("é".to_string()));
    assert_eq!(percent_decode("é%41"), Some("éA".to_string()));
    assert_eq!(percent_decode("%FF"), None);
    assert_eq!(percent_decode("%C3"), None);
    assert_eq!(percent_decode(""), Some(String::new()));
}

#[test]
fn appended_pair_is_read_behind_the_old_pairs() {
    let urls = [
        "https://example.org/",
        "https://example.org/a?x=1",
        "https://example.org/a?x=1&",
        "https://example.org/a?",
        "https://example.org/a?x=1&&y=%26#frag",
        "https://example.org/a#frag",
        "foo:/a?k",
        "mailto:someone@example.org",
    ];
    let pairs = [
        ("ref", "https://example.com/a.mp3?x=1&y=2"),
        ("ref", ""),
        ("", ""),
        ("a b", "c+d"),
        ("k=&", "100% é"),
    ];
    for url in urls {
        for (name, value) in pairs {
            let before = Url::parse(url).unwrap();
            let after = before.with_query_pair(name, value).unwrap();
            let mut expected = before.query_pairs();
            expected.push((name.to_string(), value.to_string()));
            assert_eq!(after.query_pairs(), expected, "{url} with {name:?}={value:?}");
            assert_eq!(Url::parse(after.as_str()), Some(after.duplicate()));
        }
    }
}

#[test]
fn forward_address_carries_the_original_as_its_last_pair() {
    let original = Url::parse("https://example.com/a.mp3?x=1&y=2").unwrap();
    let r = replacer("https://example.org/feed?keep=1", Some("/r"));
    let address = r.forward_address(&original).unwrap();
    assert_eq!(address.path(), "/r/a.mp3");
    assert_eq!(
        address.query_pairs(),
        vec![
            ("keep".to_string(), "1".to_string()),
            ("ref".to_string(), "https://example.com/a.mp3?x=1&y=2".to_string())
        ]
    );
    assert_eq!(r.build_forward(&original), Some(forwarder::escape::escape_markup(address.as_str())));
}
