//! The table of known podcast clients: an ordered list of pairs of a
//! pattern, which is looked for in a user agent, and the name of the client
//! that sends it.
//!
//! The patterns follow the public registry of podcast user agents at
//! <https://github.com/opawg/podcast-rss-useragents>.  The order of the
//! entries decides between patterns that occur in the same user agent: the
//! first one wins.  Several entries give the same name, and a pattern may
//! stand twice.

use vstd::prelude::*;

verus! {

/// The number of entries of [`USER_AGENTS`].
pub const USER_AGENT_COUNT: usize = 229;

/// Pairs of pattern and client name, in the order in which they are tried.
pub const USER_AGENTS: [(&'static str, &'static str); 229] = [
    ("Acast", "Acast"),
    ("Aggregator/", "Aggregator"),
    ("AhrefsBot", "AhrefsSiteAudit [bot]"),
    ("AirPodcasts/", "AirPodcasts-unknown"),
    ("Airr Podcatcher", "Airr"),
    ("Amazon Music Podcast", "Amazon Music Podcasts"),
    ("AmazonMusic", "Amazon Music Podcasts"),
    ("AntennaPod/", "AntennaPod"),
    ("anytime_podcast_player", "Anytime podcast player"),
    ("iTunes/", "Apple iTunes"),
    ("itunes", "Apple iTunes Store"),
    ("iTMS", "Apple Podcasts - directory"),
    ("Pocket Casts", "Pocket Casts"),
    ("Podcasts/", "Apple Podcasts - via app"),
    ("AppleCoreMedia/", "Apple Podcasts - via app"),
    ("Balados/", "Apple Podcasts - via app"),
    ("Balados/", "Apple Podcasts - via app"),
    ("Podcasti/", "Apple Podcasts - via app"),
    ("Podcastit/", "Apple Podcasts - via app"),
    ("Podcasturi/", "Apple Podcasts - via app"),
    ("Podcasty/", "Apple Podcasts - via app"),
    ("Podcast’ler/", "Apple Podcasts - via app"),
    ("Podkaster/", "Apple Podcasts - via app"),
    ("PodkiteCrawler/", "Podkite"),
    ("Podcaster/", "Apple Podcasts - via app"),
    ("Podcast/", "Apple Podcasts - via app"),
    ("Podcastok/", "Apple Podcasts - via app"),
    ("Подкасти/", "Apple Podcasts - via app"),
    ("Подкасты/", "Apple Podcasts - via app"),
    ("פודקאסטים/", "Apple Podcasts - via app"),
    ("البودكاست/", "Apple Podcasts - via app"),
    ("पॉडकास्ट/", "Apple Podcasts - via app"),
    ("พ็อดคาสท์/", "Apple Podcasts - via app"),
    ("播客/", "Apple Podcasts - via app"),
    ("팟캐스트/", "Apple Podcasts - via app"),
    ("special_archiver", "archive.org"),
    ("Audacy-Podcast-Scraper", "Audacy"),
    ("audius", "Audius"),
    ("AvailableOnBot", "AvailableOn"),
    ("BazQux/", "BazQux Reader"),
    ("BeyondPod", "BeyondPod"),
    ("bingbot/", "BingBot"),
    ("Bitcast/", "Bitcast"),
    ("bitcastbot", "Bitcast"),
    ("Blogtrottr/", "Blogtrottr"),
    ("RawVoice Generator/", "Blubrry Podcasting"),
    ("Breaker/", "Breaker"),
    ("anytime.amugofjava.me.uk", "Breez"),
    ("briefings.fm", "briefings.fm"),
    ("Bullhorn Server", "Bullhorn"),
    ("Castamatic/", "Castamatic"),
    ("CastboxFeedParser", "Castbox"),
    ("CastBox", "Castbox"),
    ("CastFeedValidator", "CastFeedValidator"),
    ("Tentacles", "Castro"),
    ("Mozilla/5.0 +https://chartable.com/crawler Trackable/", "Chartable"),
    ("Podcast-CriticalMention/", "Critical Mention"),
    ("CurioCaster/", "CurioCaster"),
    ("DataForSeoBot", "DataForSEO"),
    ("Deezer Podcasters/", "Deezer"),
    ("DEVONthink", "DEVONthink"),
    ("dlvr.it/", "dlvr.it"),
    ("DoggCatcher", "DoggCatcher"),
    ("Downcast/", "Downcast"),
    ("edgar", "Edgar"),
    ("Entale bot", "Entale"),
    ("facebookexternalhit/", "Facebook"),
    ("podcastbot", "Facebook Podcasts"),
    ("Feed Wrangler/", "Feed Wrangler"),
    ("Feedbin", "Feedbin"),
    ("feeder.co", "Feeder"),
    ("Feeder /", "Feeder"),
    ("Feedly", "Feedly"),
    ("Feedspot/", "Feedspot"),
    ("ffydpoll", "Ffyd"),
    ("FreshRSS", "FreshRSS"),
    ("Fusebox", "Fusebox"),
    ("FYEO/", "FYEO"),
    ("fyyd/", "Fyyd"),
    ("fyyd-poll", "Fyyd"),
    ("Goodpods", "Goodpods"),
    ("FeedFetcher-Google", "Google Feedfetcher"),
    ("Googlebot", "Google Podcasts and Search [bot]"),
    ("GEfektBot/1", "Govoren Efekt Bot"),
    ("gPodder/", "gPodder"),
    ("GSA/", "Google Podcasts Android"),
    ("GooglePodcasts/", "Google Podcasts iOS"),
    ("Google-Podcast", "Google Play Music Podcasts"),
    ("hackney/", "Hackney-unknown"),
    ("Headliner", "Headliner"),
    ("Hypefactors", "Hypefactors"),
    ("Buck/", "Hypefactors"),
    ("iCatcher", "iCatcher! Podcast Player"),
    ("Mozilla/5.0 (Linux;) AppleWebKit/ Chrome/ Safari", "iHeartRadio"),
    ("inoreader.com", "Inoreader"),
    ("Instacast/", "Instacast"),
    ("iVoox", "iVoox"),
    ("Krzana bot", "Krzana bot"),
    ("Leaf/", "Leaf-unknown"),
    ("life-radio-konsole-app", "Life Radio Konsole App"),
    ("Liferea/", "Liferea"),
    ("Lisnybot", "Lisny"),
    ("ListenAppBot", "Listen App"),
    ("ListenNotes", "Listen Notes"),
    ("Luminary/", "Luminary"),
    ("Micro.blog/", "Micro.blog"),
    ("MissinglettrBot/", "MissingLettr"),
    ("MixerBox Podcast Crawler", "MixerBox"),
    ("MuckRackFeedParser", "Muck Rack"),
    ("mypodapp.net", "My Pod"),
    ("NetNewsWire", "NetNewsWire"),
    ("Netvibes", "Netvibes"),
    ("News Explorer/", "News Explorer"),
    ("NewsBlur Feed Fetcher", "NewsBlur"),
    ("Newsify Feed Fetcher", "Newsify"),
    ("NewsNow/", "NewsNow"),
    ("NextCloud-News/", "Nextcloud"),
    ("NRCAudioBot/", "NRC Audio"),
    ("Office 365 Connectors", "Office 365"),
    ("Overcast/", "Overcast"),
    ("OwlTail/", "OwlTail"),
    ("PandoraRSSCrawler", "Pandora"),
    ("PaperLiBot/", "Paper.li"),
    ("PetalBot", "PetalBot"),
    ("Playapod/", "Playapod"),
    ("PlayerFM/1.0 Podcast Sync", "Player FM"),
    ("Plex/", "Plex"),
    ("plex", "Plex"),
    ("Plex Media Providers", "Plex"),
    ("PocketCasts/", "Pocket Casts"),
    ("Swoot/", "Pod Hero"),
    ("Mozilla/5.0 (compatible; Podalong/", "Podalong"),
    ("Podbay/", "Podbay"),
    ("PodbeanFeedReader/", "Podbean"),
    ("Podbean/", "Podbean"),
    ("PodcastGuru", "Podcast Guru"),
    ("Podcastindex.org/", "Podcast Index"),
    ("PodcastRepublic/", "Podcast Republic"),
    ("PodcastAddict/", "PodcastAddict"),
    ("Podcastly/", "Podcastly"),
    ("Podcastly/", "Podcastly"),
    ("PodcastScraper", "PodcastScraper"),
    ("Podchaser-Parser", "Podchaser"),
    ("Podchaser", "Podchaser"),
    ("podCloud/", "podCloud"),
    ("PodCruncher", "PodCruncher"),
    ("PodEngine/", "PodEngine"),
    ("podfollowbot/", "Podfollow"),
    ("podfriend", "Podfriend"),
    ("PodheroBot/", "Podhero"),
    ("PodHound/", "PodHound"),
    ("Podimo/", "Podimo"),
    ("Podinstall", "Podinstall"),
    ("Podkicker", "Podkicker"),
    ("PodLink", "PodLink"),
    ("PodBotLP/", "PodLP"),
    ("PodMN/", "PodMN"),
    ("PodMust/", "PodMust"),
    ("Podmust/", "Podmust"),
    ("PodnewsBot", "PodnewsBot"),
    ("PodParadise", "PodParadise"),
    ("Podplay-Podcast-Sync/", "Podplay"),
    ("Podsights/", "Podsights"),
    ("Podtail/", "Podtail"),
    ("Mozilla/5.0 (compatible; Podtail/", "Podtail"),
    ("podtail", "Podtail"),
    ("Podtrac Feed Scanner", "Podtrac"),
    ("Podverse/Feed Parser", "Podverse"),
    ("Podyssey App", "Podyssey App"),
    ("Radical-Edward", "Radical-Edward Podcast Discovery"),
    ("axios/0.19.1", "radio.com"),
    ("RadioCut/", "Radiocut"),
    ("radiofeed/", "Radiofeed"),
    ("Radioline", "Radioline"),
    ("RadioPublic-Web/", "RadioPublic"),
    ("reason/", "Reason"),
    ("RedCircle", "RedCircle"),
    ("Reedah/1", "Reedah"),
    ("Reeder/", "Reeder"),
    ("Repod/", "Repod"),
    ("Rephonic/", "Rephonic"),
    ("rssapi.net", "RSS API"),
    ("RSSOwl/", "RSSOwl"),
    ("RSSRadio", "RSSRadio"),
    ("R6_FeedFetcher", "Salesforce"),
    ("sp-agent", "Samsung Podcasts"),
    ("semantic-visions.com", "Semantic Visions"),
    ("SemrushBot", "SEMrushBot"),
    ("SEOkicks", "SEOkicks"),
    ("SerendeputyBot/", "Serendeputy"),
    ("Shadow", "Shadow"),
    ("SismicsReaderBot", "Sismics Reader"),
    ("Slackbot", "Slackbot"),
    ("SocialBeeAgent", "SocialBeeAgent"),
    ("Sonnet/", "Sonnet"),
    ("Spotify/", "Spotify"),
    ("Spreaker/", "Spreaker"),
    ("StitcherBot", "Stitcher"),
    ("Subcast/", "Subcast-unknown"),
    ("Superfeedr bot", "Superfeedr"),
    ("taddy.org/", "taddy"),
    ("TapTapes", "Taptapes"),
    ("theoldreader.com", "The Old Reader"),
    ("tweetedtimes.com", "The Tweeted Times"),
    ("Expanse, a Palo Alto Networks company", "Expanse [bot]"),
    ("Tiny Tiny RSS", "Tiny Tiny RSS"),
    ("TPA/", "TPA-unknown"),
    ("trendictionbot", "Trendiction Bot"),
    ("Tumult", "Tumult"),
    ("TuneInRssParser/", "TuneIn"),
    ("um-IC/", "Ubermetrics"),
    ("verbbot/", "Verb.fm"),
    ("VictorReader", "Victor Reader"),
    ("Vienna/", "ViennaRSS"),
    ("Vodacast", "Vodacast"),
    ("VurblBot/", "Vurbl"),
    ("Winds:", "Winds"),
    ("russ(xiaoyuzhou)/1.0", "Xiao Yu Zhou"),
    ("Russ", "Xiao Yu Zhou"),
    ("YandexBot/", "YandexBot"),
    ("Zapier", "Zapier"),
    ("ZoominfoBot", "Zoominfo"),
    ("axios", "Script [bot]"),
    ("Go-http-client/", "Script [bot]"),
    ("node-fetch/", "Script [bot]"),
    ("lychee/", "Script [bot]"),
    ("python-requests/", "Script [bot]"),
    ("Ruby", "Script [bot]"),
    ("UniversalFeedParser/", "Script [bot]"),
];

} // verus!
