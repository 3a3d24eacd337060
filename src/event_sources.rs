//! A registry of event sources and the conversion of a scraped event into a
//! yes/no market. Fetching and parsing pages is left to the caller.
use vstd::prelude::*;
use vstd::string::StringExecFns;
use crate::transaction::now_millis;

verus! {

/// How a source is read.
#[derive(Debug, Clone, Copy, PartialEq, Eq)]
pub enum SourceType {
    Html,
    Rss,
    Json,
    Text,
}

/// CSS selectors that locate the parts of an event in a page.
#[derive(Debug)]
pub struct HtmlSelectors {
    pub event_container: String,
    pub title: String,
    pub description: String,
    pub date: String,
    pub options: Option<String>,
}

/// A configured source of events.
#[derive(Debug)]
pub struct EventSource {
    /// Unique among the registered sources.
    pub id: String,
    pub name: String,
    pub url: String,
    pub source_type: SourceType,
    pub selectors: Option<HtmlSelectors>,
    /// Named extraction patterns.
    pub regex_patterns: Option<Vec<(String, String)>>,
    pub refresh_interval_hours: u32,
    /// When the source was last read, in milliseconds since the Unix epoch.
    pub last_scraped: Option<i64>,
    pub is_active: bool,
    pub category: String,
}

/// An event as read from a source.
#[derive(Debug)]
pub struct ScrapedEvent {
    pub title: String,
    pub description: String,
    pub date: String,
    pub source_id: String,
    pub category: String,
    pub url: Option<String>,
    pub raw_data: String,
}

/// A yes/no market proposed from an event.
#[derive(Debug)]
pub struct GeneratedMarketFromEvent {
    pub title: String,
    pub description: String,
    pub options: Vec<String>,
    pub category: String,
    pub source_event_id: String,
}

/// The registered sources, in the order they were added.
#[derive(Debug)]
pub struct EventScraper {
    pub sources: Vec<EventSource>,
}

/// Milliseconds in an hour.
pub const MILLIS_PER_HOUR: i128 = 3_600_000;

/// The identifiers of a list of sources.
pub open spec fn source_ids(s: Seq<EventSource>) -> Seq<Seq<char>> {
    s.map_values(|e: EventSource| e.id@)
}

/// Whether a source is due at `now`: never read, or read at least its refresh
/// interval ago.
pub open spec fn is_due(source: EventSource, now: i64) -> bool {
    match source.last_scraped {
        None => true,
        Some(last) => now - last >= source.refresh_interval_hours * MILLIS_PER_HOUR,
    }
}

/// The active sources that are due at `now`, in order.
pub open spec fn due_sources(s: Seq<EventSource>, now: i64) -> Seq<EventSource> {
    s.filter(|e: EventSource| e.is_active && is_due(e, now))
}

/// The description of the market made from an event.
pub open spec fn market_description(e: ScrapedEvent) -> Seq<char> {
    e.description@ + seq!['\n', '\n', 'S', 'o', 'u', 'r', 'c', 'e', ':', ' '] + e.source_id@ + seq![
        '\n',
        'D',
        'a',
        't',
        'e',
        ':',
        ' ',
    ] + e.date@
}

/// Whether a source is due at `now`.
pub fn should_refresh(source: &EventSource, now: i64) -> (r: bool)
    ensures
        r == is_due(*source, now),
{
    match source.last_scraped {
        None => true,
        Some(last) => {
            let elapsed: i128 = now as i128 - last as i128;
            let interval: i128 = source.refresh_interval_hours as i128 * MILLIS_PER_HOUR;
            elapsed >= interval
        },
    }
}

impl EventScraper {
    /// No two sources share an identifier.
    pub open spec fn wf(&self) -> bool {
        forall|i: int, j: int|
            0 <= i < j < self.sources@.len() ==> (#[trigger] self.sources@[i]).id@
                != (#[trigger] self.sources@[j]).id@
    }

    /// A registry with no source.
    pub fn new() -> (r: Self)
        ensures
            r.wf(),
            r.sources@.len() == 0,
    {
        EventScraper { sources: Vec::new() }
    }

    /// The position of the source with the given identifier.
    fn position(&self, id: &String) -> (r: Option<usize>)
        ensures
            r matches Some(i) ==> i < self.sources@.len() && self.sources@[i as int].id@ == id@,
            r is None ==> !source_ids(self.sources@).contains(id@),
    {
        let mut i: usize = 0;
        while i < self.sources.len()
            invariant
                i <= self.sources@.len(),
                forall|j: int| 0 <= j < i ==> (#[trigger] self.sources@[j]).id@ != id@,
            decreases self.sources@.len() - i,
        {
            if self.sources[i].id == *id {
                return Some(i);
            }
            i = i + 1;
        }
        assert forall|j: int| 0 <= j < source_ids(self.sources@).len() implies source_ids(
            self.sources@,
        )[j] != id@ by {
            assert(source_ids(self.sources@)[j] == self.sources@[j].id@);
        }
        None
    }

    /// Registers a source; refused when one with the same identifier exists.
    pub fn add_source(&mut self, source: EventSource) -> (r: Result<(), String>)
        requires
            old(self).wf(),
        ensures
            final(self).wf(),
            r is Err <==> source_ids(old(self).sources@).contains(source.id@),
            r is Ok ==> final(self).sources@ == old(self).sources@.push(source),
            r is Err ==> final(self).sources@ == old(self).sources@,
    {
        match self.position(&source.id) {
            Some(i) => {
                assert(source_ids(self.sources@)[i as int] == source.id@);
                Err("Source already exists".to_owned())
            },
            None => {
                let ghost before = self.sources@;
                self.sources.push(source);
                assert forall|i: int, j: int|
                    0 <= i < j < self.sources@.len() implies (#[trigger] self.sources@[i]).id@
                    != (#[trigger] self.sources@[j]).id@ by {
                    if j == before.len() {
                        assert(source_ids(before)[i] == before[i].id@);
                    }
                }
                Ok(())
            },
        }
    }

    /// Unregisters the source with the given identifier; refused when there is none.
    pub fn remove_source(&mut self, source_id: &str) -> (r: Result<(), String>)
        requires
            old(self).wf(),
        ensures
            final(self).wf(),
            r is Err <==> !source_ids(old(self).sources@).contains(source_id@),
            r is Err ==> final(self).sources@ == old(self).sources@,
            r is Ok ==> exists|i: int|
                0 <= i < old(self).sources@.len() && old(self).sources@[i].id@ == source_id@
                    && final(self).sources@ == old(self).sources@.remove(i),
    {
        let id = source_id.to_owned();
        match self.position(&id) {
            Some(i) => {
                assert(source_ids(self.sources@)[i as int] == source_id@);
                let ghost before = self.sources@;
                let _ = self.sources.remove(i);
                assert forall|a: int, b: int|
                    0 <= a < b < self.sources@.len() implies (#[trigger] self.sources@[a]).id@
                    != (#[trigger] self.sources@[b]).id@ by {
                    let a0 = if a < i { a } else { a + 1 };
                    let b0 = if b < i { b } else { b + 1 };
                    assert(self.sources@[a] == before[a0]);
                    assert(self.sources@[b] == before[b0]);
                }
                Ok(())
            },
            None => Err("Source not found".to_owned()),
        }
    }

    /// Every registered source.
    pub fn get_sources(&self) -> (r: Vec<&EventSource>)
        ensures
            r@.len() == self.sources@.len(),
            forall|i: int| 0 <= i < r@.len() ==> *(#[trigger] r@[i]) == self.sources@[i],
    {
        let mut out: Vec<&EventSource> = Vec::new();
        let mut i: usize = 0;
        while i < self.sources.len()
            invariant
                i <= self.sources@.len(),
                out@.len() == i,
                forall|j: int| 0 <= j < i ==> *(#[trigger] out@[j]) == self.sources@[j],
            decreases self.sources@.len() - i,
        {
            out.push(&self.sources[i]);
            i = i + 1;
        }
        out
    }

    /// The active sources that are due at `now`, in registration order.
    pub fn sources_due(&self, now: i64) -> (r: Vec<&EventSource>)
        ensures
            r@.map_values(|s: &EventSource| *s) == due_sources(self.sources@, now),
    {
        let ghost pred = |e: EventSource| e.is_active && is_due(e, now);
        let ghost all = self.sources@;
        let mut out: Vec<&EventSource> = Vec::new();
        let mut i: usize = 0;
        while i < self.sources.len()
            invariant
                i <= self.sources@.len(),
                all == self.sources@,
                pred == (|e: EventSource| e.is_active && is_due(e, now)),
                out@.map_values(|s: &EventSource| *s) == all.subrange(0, i as int).filter(pred),
            decreases self.sources@.len() - i,
        {
            assert(all.subrange(0, i + 1).drop_last() =~= all.subrange(0, i as int));
            assert(all.subrange(0, i + 1).last() == all[i as int]);
            reveal(Seq::filter);
            assert(all.subrange(0, i + 1).filter(pred) == (if pred(all[i as int]) {
                all.subrange(0, i as int).filter(pred).push(all[i as int])
            } else {
                all.subrange(0, i as int).filter(pred)
            }));
            let s = &self.sources[i];
            if s.is_active && should_refresh(s, now) {
                out.push(s);
                assert(out@.map_values(|s: &EventSource| *s) =~= all.subrange(0, i as int).filter(
                    pred,
                ).push(all[i as int]));
            }
            i = i + 1;
        }
        assert(all.subrange(0, all.len() as int) =~= all);
        out
    }

    /// The active sources that are due now.
    pub fn get_sources_to_refresh(&self) -> (r: Vec<&EventSource>)
        ensures
            exists|now: i64|
                r@.map_values(|s: &EventSource| *s) == #[trigger] due_sources(self.sources@, now),
    {
        let now = now_millis();
        self.sources_due(now)
    }

    /// A yes/no market with the event's title and category, a description that
    /// names the source and the date, and an identifier made of the source's
    /// identifier and the title.
    pub fn event_to_market(&self, event: &ScrapedEvent) -> (r: GeneratedMarketFromEvent)
        ensures
            r.title@ == event.title@,
            r.description@ == market_description(*event),
            r.options@.len() == 2,
            r.options@[0]@ == seq!['Y', 'e', 's'],
            r.options@[1]@ == seq!['N', 'o'],
            r.category@ == event.category@,
            r.source_event_id@ == event.source_id@ + seq!['_'] + event.title@,
    {
        proof {
            reveal_strlit("\n\nSource: ");
            reveal_strlit("\nDate: ");
            reveal_strlit("Yes");
            reveal_strlit("No");
            reveal_strlit("_");
        }
        let mut description = event.description.clone();
        description.append("\n\nSource: ");
        description.append(event.source_id.as_str());
        description.append("\nDate: ");
        description.append(event.date.as_str());
        let mut options: Vec<String> = Vec::new();
        options.push("Yes".to_owned());
        options.push("No".to_owned());
        let mut source_event_id = event.source_id.clone();
        source_event_id.append("_");
        source_event_id.append(event.title.as_str());
        assert(description@ =~= market_description(*event));
        assert(options@[0]@ =~= seq!['Y', 'e', 's']);
        assert(options@[1]@ =~= seq!['N', 'o']);
        assert(source_event_id@ =~= event.source_id@ + seq!['_'] + event.title@);
        GeneratedMarketFromEvent {
            title: event.title.clone(),
            description,
            options,
            category: event.category.clone(),
            source_event_id,
        }
    }
}

} // verus!
