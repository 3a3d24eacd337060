use bbchain::event_sources::{
    should_refresh, EventScraper, EventSource, HtmlSelectors, ScrapedEvent, SourceType,
};

fn source(id: &str, active: bool, last_scraped: Option<i64>) -> EventSource {
    EventSource {
        id: id.to_string(),
        name: format!("{} events", id),
        url: "https://example.com".to_string(),
        source_type: SourceType::Rss,
        selectors: None,
        regex_patterns: None,
        refresh_interval_hours: 2,
        last_scraped,
        is_active: active,
        category: "sports".to_string(),
    }
}

#[test]
fn test_event_scraper_creation() {
    let scraper = EventScraper::new();
    assert_eq!(scraper.get_sources().len(), 0);
}

#[test]
fn test_add_event_source() {
    let mut scraper = EventScraper::new();
    let source = EventSource {
        id: "ufc".to_string(),
        name: "UFC Events".to_string(),
        url: "https://www.ufc.com".to_string(),
        source_type: SourceType::Html,
        selectors: Some(HtmlSelectors {
            event_container: ".event-item".to_string(),
            title: ".title".to_string(),
            description: ".description".to_string(),
            date: ".date".to_string(),
            options: None,
        }),
        regex_patterns: None,
        refresh_interval_hours: 24,
        last_scraped: None,
        is_active: true,
        category: "sports".to_string(),
    };

    scraper.add_source(source).unwrap();
    assert_eq!(scraper.get_sources().len(), 1);
}

#[test]
fn duplicate_source_is_refused() {
    let mut scraper = EventScraper::new();
    scraper.add_source(source("a", true, None)).unwrap();
    assert_eq!(
        scraper.add_source(source("a", false, None)),
        Err("Source already exists".to_string())
    );
    assert_eq!(scraper.get_sources().len(), 1);
    assert!(scraper.get_sources()[0].is_active);
}

#[test]
fn remove_source_by_id() {
    let mut scraper = EventScraper::new();
    scraper.add_source(source("a", true, None)).unwrap();
    scraper.add_source(source("b", true, None)).unwrap();
    scraper.add_source(source("c", true, None)).unwrap();
    assert!(scraper.remove_source("b").is_ok());
    let ids: Vec<&str> = scraper.get_sources().iter().map(|s| s.id.as_str()).collect();
    assert_eq!(ids, vec!["a", "c"]);
    assert_eq!(scraper.remove_source("b"), Err("Source not found".to_string()));
}

#[test]
fn refresh_after_interval() {
    let hour = 3_600_000i64;
    assert!(should_refresh(&source("a", true, None), 0));
    assert!(!should_refresh(&source("a", true, Some(10 * hour)), 11 * hour));
    assert!(should_refresh(&source("a", true, Some(10 * hour)), 12 * hour));
    assert!(should_refresh(&source("a", true, Some(i64::MIN)), i64::MAX));
}

#[test]
fn due_sources_are_active_and_stale() {
    let hour = 3_600_000i64;
    let mut scraper = EventScraper::new();
    scraper.add_source(source("fresh", true, Some(100 * hour))).unwrap();
    scraper.add_source(source("stale", true, Some(90 * hour))).unwrap();
    scraper.add_source(source("never", true, None)).unwrap();
    scraper.add_source(source("off", false, None)).unwrap();
    let due: Vec<&str> = scraper.sources_due(101 * hour).iter().map(|s| s.id.as_str()).collect();
    assert_eq!(due, vec!["stale", "never"]);
    assert_eq!(scraper.get_sources_to_refresh().len(), 3);
}

#[test]
fn event_becomes_yes_no_market() {
    let scraper = EventScraper::new();
    let event = ScrapedEvent {
        title: "Main card".to_string(),
        description: "Title fight".to_string(),
        date: "2025-01-01".to_string(),
        source_id: "ufc".to_string(),
        category: "sports".to_string(),
        url: None,
        raw_data: String::new(),
    };
    let market = scraper.event_to_market(&event);
    assert_eq!(market.title, "Main card");
    assert_eq!(market.description, "Title fight\n\nSource: ufc\nDate: 2025-01-01");
    assert_eq!(market.options, vec!["Yes".to_string(), "No".to_string()]);
    assert_eq!(market.category, "sports");
    assert_eq!(market.source_event_id, "ufc_Main card");
}
