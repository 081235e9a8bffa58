use epaper_dashboard::feed::{
    FeedError, get_feed, get_feed_full, get_meme_title, get_newest_article,
    get_newest_meme_article,
};
use epaper_dashboard::strutil::split_words;
use epaper_dashboard::timing::{ClockTime, get_sleep_time, round_display_hour, time_until_6am, time_until_next_hour};
use epaper_dashboard::weather::LocalTime;
use epaper_dashboard::strutil::{int_to_chars, round_tenths, tenths_to_chars};

fn sample_feed() -> String {
    let mut s = String::new();
    s.push_str("<html><div id=\"feed_items\">");
    s.push_str("<div id=\"newsfeed_1\" data-type=\"Article\">");
    s.push_str("<a class=\"newsfeed-title\" href=\"/memes/first\">First Meme</a>");
    s.push_str("<img class=\"newsfeed_photo\" data-src=\"http://img/one.jpg\">");
    s.push_str("<p class=\"summary\">Summary one</p></div>");
    s.push_str("<div id=\"newsfeed_2\" data-type=\"Editorial\">");
    s.push_str("<a class=\"newsfeed-title\" href=\"/editorials/x\">Skip me</a>");
    s.push_str("<img class=\"newsfeed_photo\" data-src=\"http://img/skip.jpg\">");
    s.push_str("<p class=\"summary\">Skipped</p></div>");
    s.push_str("<div id=\"newsfeed_3\" data-type=\"Article\">");
    s.push_str("<a class=\"newsfeed-title\" href=\"/photos/second\">Second One</a>");
    s.push_str("<p class=\"summary\">No image here</p></div>");
    s.push_str("<div id=\"newsfeed_4\" data-type=\"Article\">");
    s.push_str("<a class=\"newsfeed-title\" href=\"/memes/third\">Third Entry</a>");
    s.push_str("<img class=\"newsfeed_photo\" data-src=\"http://img/three.png\">");
    s.push_str("<p class=\"summary\">Summary three</p></div>");
    s.push_str("</div></html>");
    s
}

#[test]
fn test() {
    // The front page scan finds the well-formed article blocks.
    assert!(!get_feed(&sample_feed()).is_empty());
}

#[test]
fn feed_extracts_articles_in_order() {
    let feed = get_feed(&sample_feed());
    // The editorial and the block without an image are skipped.
    assert_eq!(feed.len(), 2);
    assert_eq!(feed[0].url, "/memes/first");
    assert_eq!(feed[0].title, "First Meme");
    assert_eq!(feed[0].summary, "Summary one");
    assert_eq!(feed[0].image_url, "http://img/one.jpg");
    assert!(feed[0].meme_name.is_none());
    assert_eq!(feed[1].url, "/memes/third");
    assert_eq!(feed[1].title, "Third Entry");
}

#[test]
fn newest_article_is_first_block() {
    let article = get_newest_article(&sample_feed()).unwrap();
    assert_eq!(article.title, "First Meme");
}

#[test]
fn empty_page_reports_no_articles() {
    assert_eq!(get_newest_article("<html></html>").unwrap_err(), FeedError::NoArticles);
}

#[test]
fn meme_title_from_desktop_page() {
    let page = "<section class=\"info\"><h1>Loss</h1></section>";
    assert_eq!(get_meme_title(page, "/memes/loss").unwrap(), "Loss");
}

#[test]
fn meme_title_from_mobile_page() {
    let page = "<h1 class=\"entry-title\">Doge</h1>";
    assert_eq!(get_meme_title(page, "/memes/doge").unwrap(), "Doge");
}

#[test]
fn meme_title_from_media_page() {
    let page = "<div id=\"media-title\">Photo Title</div>";
    assert_eq!(get_meme_title(page, "/photos/x").unwrap(), "Photo Title");
}

#[test]
fn meme_title_missing_is_an_error() {
    assert_eq!(
        get_meme_title("<html></html>", "/memes/gone").unwrap_err(),
        FeedError::MemeNameMissing
    );
}

#[test]
fn newest_meme_article_fills_name() {
    let page = "<section class=\"info\"><h1>First</h1></section>";
    let article = get_newest_meme_article(&sample_feed(), Some(page)).unwrap();
    assert_eq!(article.meme_name.as_deref(), Some("First"));
}

#[test]
fn feed_full_fills_names_per_article() {
    let pages = vec![
        Some("<section class=\"info\"><h1>One</h1></section>".to_string()),
        None,
    ];
    let feed = get_feed_full(&sample_feed(), &pages).unwrap();
    assert_eq!(feed.len(), 2);
    assert_eq!(feed[0].meme_name.as_deref(), Some("One"));
    assert!(feed[1].meme_name.is_none());
}

#[test]
fn split_words_finds_maximal_runs() {
    let words = split_words("  hello   e-paper \n dash ");
    assert_eq!(words, vec!["hello", "e-paper", "dash"]);
    assert!(split_words("   ").is_empty());
}

#[test]
fn integer_formatting() {
    let digits: String = int_to_chars(-340).into_iter().collect();
    assert_eq!(digits, "-340");
    let t: String = tenths_to_chars(215).into_iter().collect();
    assert_eq!(t, "21.5");
    let whole: String = tenths_to_chars(210).into_iter().collect();
    assert_eq!(whole, "21");
    let neg: String = tenths_to_chars(-5).into_iter().collect();
    assert_eq!(neg, "-0.5");
    assert_eq!(round_tenths(15), 2);
    assert_eq!(round_tenths(-15), -2);
    assert_eq!(round_tenths(14), 1);
}

#[test]
fn sleep_times() {
    let mid_morning = ClockTime { hour: 9, minute: 30, second: 15 };
    // Until one minute past the next hour.
    assert_eq!(time_until_next_hour(mid_morning), 3660 - 30 * 60 - 15);
    assert_eq!(get_sleep_time(mid_morning), 3660 - 30 * 60 - 15);
    let night = ClockTime { hour: 23, minute: 0, second: 0 };
    assert_eq!(time_until_6am(night), 7 * 3600);
    assert_eq!(get_sleep_time(night), 7 * 3600);
    let early = ClockTime { hour: 3, minute: 0, second: 0 };
    assert_eq!(get_sleep_time(early), 3 * 3600);
}

#[test]
fn display_hour_rounds_past_half() {
    assert_eq!(round_display_hour(LocalTime { day: 1, hour: 14, minute: 45, }), 15);
    assert_eq!(round_display_hour(LocalTime { day: 1, hour: 14, minute: 30, }), 14);
    assert_eq!(round_display_hour(LocalTime { day: 1, hour: 22, minute: 45, }), 23);
    // The rollover wraps to midnight.
    assert_eq!(round_display_hour(LocalTime { day: 1, hour: 23, minute: 45, }), 0);
}
