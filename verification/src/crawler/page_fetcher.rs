//! The fetch of one page, step by step: whether a response is taken, which
//! links its body holds, what is stored, and what is reported upward.

use crate::crawler::target_crawler::{FetchRequest, FetchRequestView};
use crate::text::{optional_text, texts};
use vstd::hash_set::StringHashSet;
use vstd::prelude::*;

verus! {

/// A fetched page as it is stored, as plain values.
pub struct PageRecordView {
    /// The address that was fetched.
    pub url: Seq<char>,
    /// The host of that address.
    pub target: Seq<char>,
    /// The status code of the response.
    pub status: u16,
    /// The body of the response.
    pub body: Seq<char>,
}

/// A fetched page as it is stored.
#[derive(Debug, Clone, PartialEq, Eq)]
pub struct PageRecord {
    /// The address that was fetched.
    pub url: String,
    /// The host of that address.
    pub target: String,
    /// The status code of the response.
    pub status: u16,
    /// The body of the response.
    pub body: String,
}

impl View for PageRecord {
    type V = PageRecordView;

    open spec fn view(&self) -> PageRecordView {
        PageRecordView {
            url: self.url@,
            target: self.target@,
            status: self.status,
            body: self.body@,
        }
    }
}

/// Whether a status code tells of success: it lies from 200 up to 299.
pub open spec fn is_success(status: u16) -> bool {
    200 <= status < 300
}

/// Whether a byte of a header value is text: a printable ASCII character or
/// a tab.
pub open spec fn is_visible_ascii(byte: u8) -> bool {
    32 <= byte < 127 || byte == 9
}

/// The bytes of `text/html`.
pub open spec fn html_marker() -> Seq<u8> {
    seq![116u8, 101u8, 120u8, 116u8, 47u8, 104u8, 116u8, 109u8, 108u8]
}

/// Whether a `Content-Type` header announces an HTML page: it is there, all
/// of it is text, and it begins with `text/html`.
pub open spec fn announces_html(content_type: Option<Seq<u8>>) -> bool {
    content_type matches Some(value) && (forall|i: int|
        0 <= i < value.len() ==> is_visible_ascii(#[trigger] value[i])) && html_marker().is_prefix_of(
        value,
    )
}

/// Whether the body of a response is read: the status tells of success and
/// the content type announces an HTML page.
pub open spec fn accepts(status: u16, content_type: Option<Seq<u8>>) -> bool {
    is_success(status) && announces_html(content_type)
}

/// The links among the `href` values of a page: those that are present, each
/// once, in the order in which they first occur.
pub open spec fn distinct_links(hrefs: Seq<Option<Seq<char>>>) -> Seq<Seq<char>>
    decreases hrefs.len(),
{
    if hrefs.len() == 0 {
        Seq::<Seq<char>>::empty()
    } else {
        let before = distinct_links(hrefs.drop_last());
        match hrefs.last() {
            Some(link) => if before.contains(link) {
                before
            } else {
                before.push(link)
            },
            None => before,
        }
    }
}

/// The views of optional strings, in order.
pub open spec fn optional_texts(v: Seq<Option<String>>) -> Seq<Option<Seq<char>>> {
    Seq::new(v.len(), |i: int| optional_text(v[i]))
}

/// For each `a` element that `scraper` selects from the document, in the
/// order in which `Html::select` yields them, the value of its `href`
/// attribute, where it has one.
pub uninterp spec fn anchor_hrefs(document: Seq<char>) -> Seq<Option<Seq<char>>>;

/// Parses the document with `scraper::Html::parse_document`, selects its `a`
/// elements with `Html::select` and a selector from `Selector::parse`, and
/// reads the `href` attribute of each with `Element::attr`. Nothing is
/// claimed of the result but that the document alone decides it.
#[verifier::external_body]
pub(crate) fn anchor_hrefs_in(document: &str) -> (hrefs: Vec<Option<String>>)
    ensures
        optional_texts(hrefs@) == anchor_hrefs(document@),
{
    let mut hrefs = Vec::new();
    if let Ok(anchors) = scraper::Selector::parse("a") {
        for anchor in scraper::Html::parse_document(document).select(&anchors) {
            hrefs.push(anchor.value().attr("href").map(str::to_owned));
        }
    }
    hrefs
}

/// Whether a status code tells of success.
pub fn status_is_success(status: u16) -> (success: bool)
    ensures
        success == is_success(status),
{
    200 <= status && status < 300
}

/// Whether the bytes of a `Content-Type` header announce an HTML page.
fn value_is_html(value: &Vec<u8>) -> (html: bool)
    ensures
        html == announces_html(Some(value@)),
{
    let mut i: usize = 0;
    while i < value.len()
        invariant
            i <= value.len(),
            forall|k: int| 0 <= k < i ==> is_visible_ascii(#[trigger] value[k]),
        decreases value.len() - i,
    {
        let byte = value[i];
        if !(32 <= byte && byte < 127 || byte == 9) {
            assert(!is_visible_ascii(value[i as int]));
            return false;
        }
        i += 1;
    }
    if value.len() < 9 {
        return false;
    }
    let begins = value[0] == 116 && value[1] == 101 && value[2] == 120 && value[3] == 116
        && value[4] == 47 && value[5] == 104 && value[6] == 116 && value[7] == 109 && value[8]
        == 108;
    proof {
        let head = value@.subrange(0, 9);
        if begins {
            assert(head =~= html_marker());
        } else {
            assert(head[0] == value[0] && head[1] == value[1] && head[2] == value[2] && head[3]
                == value[3] && head[4] == value[4] && head[5] == value[5] && head[6] == value[6]
                && head[7] == value[7] && head[8] == value[8]);
        }
    }
    begins
}

/// The bytes of a header as plain values, where the header is there.
pub open spec fn header_bytes(header: Option<Vec<u8>>) -> Option<Seq<u8>> {
    match header {
        Some(value) => Some(value@),
        None => None,
    }
}

/// Whether a `Content-Type` header, given by its bytes, announces an HTML
/// page.
pub fn content_type_is_html(content_type: &Option<Vec<u8>>) -> (html: bool)
    ensures
        html == announces_html(header_bytes(*content_type)),
{
    match content_type {
        Some(value) => value_is_html(value),
        None => false,
    }
}

/// Collects the links of a page from the `href` values of its anchors.
pub fn collect_links(hrefs: Vec<Option<String>>) -> (links: Vec<String>)
    ensures
        texts(links@) == distinct_links(optional_texts(hrefs@)),
{
    let mut links: Vec<String> = Vec::new();
    let mut known = StringHashSet::new();
    let ghost all = optional_texts(hrefs@);
    let mut i: usize = 0;
    assert(all.take(0) =~= Seq::<Option<Seq<char>>>::empty());
    assert(texts(links@) =~= Seq::<Seq<char>>::empty());
    while i < hrefs.len()
        invariant
            i <= hrefs.len(),
            all == optional_texts(hrefs@),
            texts(links@) == distinct_links(all.take(i as int)),
            forall|link: Seq<char>| known@.contains(link) <==> texts(links@).contains(link),
        decreases hrefs.len() - i,
    {
        proof {
            assert(all.take(i + 1).drop_last() == all.take(i as int));
            assert(all.take(i + 1).last() == all[i as int]);
        }
        if let Some(link) = &hrefs[i] {
            if !known.contains(link.as_str()) {
                let ghost before = texts(links@);
                known.insert(link.clone());
                links.push(link.clone());
                proof {
                    assert(texts(links@) =~= before.push(link@));
                    assert forall|other: Seq<char>| known@.contains(other) <==> texts(
                        links@,
                    ).contains(other) by {
                        if before.contains(other) {
                            let k = choose|k: int| 0 <= k < before.len() && before[k] == other;
                            assert(texts(links@)[k] == other);
                        }
                        if other == link@ {
                            assert(texts(links@)[before.len() as int] == other);
                        }
                    }
                }
            }
        }
        i += 1;
    }
    assert(all.take(hrefs.len() as int) == all);
    links
}

/// What the fetch of a page waits for next, as plain values.
pub enum PhaseView {
    /// The request is out; the response has not come.
    AwaitingResponse,
    /// The response was taken; its body is being read.
    AwaitingBody { status: u16 },
    /// The page is being stored; its links wait to be reported.
    AwaitingStore { links: Seq<Seq<char>> },
    /// The fetch is over.
    Done,
}

/// What happened to the fetch of a page, as plain values.
pub enum FetchEventView {
    /// The request failed, or the body could not be read.
    Failed,
    /// The head of the response came.
    Response { status: u16, content_type: Option<Seq<u8>> },
    /// The body was read.
    Body(Seq<char>),
    /// The page was stored.
    Stored,
    /// The page could not be stored.
    StoreFailed,
}

/// What the fetch of a page asks for next, as plain values.
pub enum FetchActionView {
    /// Read the body of the response.
    ReadBody,
    /// Store this page.
    Store(PageRecordView),
    /// Report these links to the crawl of the target.
    Report(Seq<Seq<char>>),
    /// Nothing more: the fetch is over.
    Stop,
}

/// The step after the body was read, given the `href` values of its
/// anchors: the page is stored, and its links wait for that.
pub open spec fn after_body(
    request: FetchRequestView,
    status: u16,
    body: Seq<char>,
    hrefs: Seq<Option<Seq<char>>>,
) -> (PhaseView, FetchActionView) {
    (
        PhaseView::AwaitingStore { links: distinct_links(hrefs) },
        FetchActionView::Store(
            PageRecordView { url: request.url, target: request.host, status, body },
        ),
    )
}

/// The step on the body of a response, given the `href` values of its
/// anchors. Where the fetch waits for the body, the page is stored next.
/// Else the fetch ends.
pub open spec fn body_step(
    request: FetchRequestView,
    phase: PhaseView,
    body: Seq<char>,
    hrefs: Seq<Option<Seq<char>>>,
) -> (PhaseView, FetchActionView) {
    match phase {
        PhaseView::AwaitingBody { status } => after_body(request, status, body, hrefs),
        _ => (PhaseView::Done, FetchActionView::Stop),
    }
}

/// One step of the fetch of a page. A response is taken where its status
/// tells of success and its content type announces HTML; its body is then
/// read, the page stored, and the links of the body reported where there
/// are any. Everything else ends the fetch at once and in silence: a failed
/// request, a response that is not taken, a body that cannot be read, a
/// page that cannot be stored (its links are then lost), and any event that
/// the fetch does not wait for.
pub open spec fn next(request: FetchRequestView, phase: PhaseView, event: FetchEventView) -> (
    PhaseView,
    FetchActionView,
) {
    match (phase, event) {
        (PhaseView::AwaitingResponse, FetchEventView::Response { status, content_type }) => {
            if accepts(status, content_type) {
                (PhaseView::AwaitingBody { status }, FetchActionView::ReadBody)
            } else {
                (PhaseView::Done, FetchActionView::Stop)
            }
        },
        (_, FetchEventView::Body(body)) => body_step(request, phase, body, anchor_hrefs(body)),
        (PhaseView::AwaitingStore { links }, FetchEventView::Stored) => {
            if links.len() > 0 {
                (PhaseView::Done, FetchActionView::Report(links))
            } else {
                (PhaseView::Done, FetchActionView::Stop)
            }
        },
        _ => (PhaseView::Done, FetchActionView::Stop),
    }
}

/// What happened to the fetch of a page.
#[derive(Debug, Clone, PartialEq, Eq)]
pub enum FetchEvent {
    /// The request failed, or the body could not be read.
    Failed,
    /// The head of the response came: its status code, and the bytes of its
    /// `Content-Type` header where it has one.
    Response { status: u16, content_type: Option<Vec<u8>> },
    /// The body was read as text.
    Body(String),
    /// The page was stored.
    Stored,
    /// The page could not be stored.
    StoreFailed,
}

impl View for FetchEvent {
    type V = FetchEventView;

    open spec fn view(&self) -> FetchEventView {
        match self {
            FetchEvent::Failed => FetchEventView::Failed,
            FetchEvent::Response { status, content_type } => FetchEventView::Response {
                status: *status,
                content_type: header_bytes(*content_type),
            },
            FetchEvent::Body(body) => FetchEventView::Body(body@),
            FetchEvent::Stored => FetchEventView::Stored,
            FetchEvent::StoreFailed => FetchEventView::StoreFailed,
        }
    }
}

/// What the fetch of a page asks for next.
#[derive(Debug, Clone, PartialEq, Eq)]
pub enum FetchAction {
    /// Read the body of the response as text.
    ReadBody,
    /// Store this page.
    Store(PageRecord),
    /// Report these links to the crawl of the target.
    Report(Vec<String>),
    /// Nothing more: the fetch is over.
    Stop,
}

impl View for FetchAction {
    type V = FetchActionView;

    open spec fn view(&self) -> FetchActionView {
        match self {
            FetchAction::ReadBody => FetchActionView::ReadBody,
            FetchAction::Store(record) => FetchActionView::Store(record@),
            FetchAction::Report(links) => FetchActionView::Report(texts(links@)),
            FetchAction::Stop => FetchActionView::Stop,
        }
    }
}

/// What the fetch of a page waits for next.
#[derive(Debug)]
enum Phase {
    AwaitingResponse,
    AwaitingBody { status: u16 },
    AwaitingStore { links: Vec<String> },
    Done,
}

impl View for Phase {
    type V = PhaseView;

    closed spec fn view(&self) -> PhaseView {
        match self {
            Phase::AwaitingResponse => PhaseView::AwaitingResponse,
            Phase::AwaitingBody { status } => PhaseView::AwaitingBody { status: *status },
            Phase::AwaitingStore { links } => PhaseView::AwaitingStore { links: texts(links@) },
            Phase::Done => PhaseView::Done,
        }
    }
}

/// The fetch of one page. It is told what happens and says what to do next;
/// it does no fetching itself.
#[derive(Debug)]
pub struct PageFetcher {
    request: FetchRequest,
    phase: Phase,
}

impl PageFetcher {
    /// The page that is fetched.
    pub closed spec fn page(&self) -> FetchRequestView {
        self.request@
    }

    /// What the fetch waits for.
    pub closed spec fn phase(&self) -> PhaseView {
        self.phase@
    }

    /// The fetch of the page of `request`, with the request on its way.
    pub fn new(request: FetchRequest) -> (fetcher: PageFetcher)
        ensures
            fetcher.page() == request@,
            fetcher.phase() == PhaseView::AwaitingResponse,
    {
        PageFetcher { request, phase: Phase::AwaitingResponse }
    }

    /// The page that is fetched.
    pub fn request(&self) -> (request: &FetchRequest)
        ensures
            request@ == self.page(),
    {
        &self.request
    }

    /// Whether the fetch is over.
    pub fn is_done(&self) -> (done: bool)
        ensures
            done == (self.phase() is Done),
    {
        match self.phase {
            Phase::Done => true,
            _ => false,
        }
    }

    /// Takes the body of the response together with the `href` values of
    /// its anchors. Where the fetch waits for the body, the page is stored
    /// next, and the links wait for that. Else the fetch ends.
    pub fn on_body(&mut self, body: String, hrefs: Vec<Option<String>>) -> (action: FetchAction)
        ensures
            final(self).page() == old(self).page(),
            (final(self).phase(), action@) == body_step(
                old(self).page(),
                old(self).phase(),
                body@,
                optional_texts(hrefs@),
            ),
    {
        let mut phase = Phase::Done;
        std::mem::swap(&mut phase, &mut self.phase);
        match phase {
            Phase::AwaitingBody { status } => {
                let links = collect_links(hrefs);
                self.phase = Phase::AwaitingStore { links };
                FetchAction::Store(
                    PageRecord {
                        url: self.request.url.clone(),
                        target: self.request.host.clone(),
                        status,
                        body,
                    },
                )
            },
            _ => FetchAction::Stop,
        }
    }

    /// Tells the fetch what happened, and learns what to do next.
    pub fn on_event(&mut self, event: FetchEvent) -> (action: FetchAction)
        ensures
            final(self).page() == old(self).page(),
            (final(self).phase(), action@) == next(old(self).page(), old(self).phase(), event@),
    {
        match event {
            FetchEvent::Body(body) => {
                let hrefs = match self.phase {
                    Phase::AwaitingBody { .. } => anchor_hrefs_in(body.as_str()),
                    _ => Vec::new(),
                };
                self.on_body(body, hrefs)
            },
            FetchEvent::Response { status, content_type } => {
                let taken = status_is_success(status) && content_type_is_html(&content_type);
                let mut phase = Phase::Done;
                std::mem::swap(&mut phase, &mut self.phase);
                match phase {
                    Phase::AwaitingResponse => {
                        if taken {
                            self.phase = Phase::AwaitingBody { status };
                            FetchAction::ReadBody
                        } else {
                            FetchAction::Stop
                        }
                    },
                    _ => FetchAction::Stop,
                }
            },
            FetchEvent::Stored => {
                let mut phase = Phase::Done;
                std::mem::swap(&mut phase, &mut self.phase);
                match phase {
                    Phase::AwaitingStore { links } => {
                        if links.len() > 0 {
                            FetchAction::Report(links)
                        } else {
                            FetchAction::Stop
                        }
                    },
                    _ => FetchAction::Stop,
                }
            },
            FetchEvent::Failed | FetchEvent::StoreFailed => {
                self.phase = Phase::Done;
                FetchAction::Stop
            },
        }
    }
}

/// The steps of a fetch over a row of events, and what it asks for at each.
pub open spec fn run(request: FetchRequestView, events: Seq<FetchEventView>) -> (
    PhaseView,
    Seq<FetchActionView>,
)
    decreases events.len(),
{
    if events.len() == 0 {
        (PhaseView::AwaitingResponse, Seq::<FetchActionView>::empty())
    } else {
        let (phase, actions) = run(request, events.drop_last());
        let (after, action) = next(request, phase, events.last());
        (after, actions.push(action))
    }
}

/// A fetch whose response is not taken, such as one that is not HTML, ends
/// there: whatever follows, no body is read, no page stored and no link
/// reported.
pub proof fn response_not_taken_ends_the_fetch(
    request: FetchRequestView,
    events: Seq<FetchEventView>,
)
    requires
        events.len() > 0,
        events[0] matches FetchEventView::Response { status, content_type } && !accepts(
            status,
            content_type,
        ),
    ensures
        run(request, events).0 is Done,
        run(request, events).1.len() == events.len(),
        forall|i: int| 0 <= i < events.len() ==> #[trigger] run(request, events).1[i] is Stop,
    decreases events.len(),
{
    if events.len() == 1 {
        assert(events.drop_last().len() == 0);
    } else {
        let shorter = events.drop_last();
        assert(shorter[0] == events[0]);
        response_not_taken_ends_the_fetch(request, shorter);
        let before = run(request, shorter);
        assert forall|i: int| 0 <= i < events.len() implies #[trigger] run(request, events).1[i]
            is Stop by {
            if i < shorter.len() {
                assert(run(request, events).1[i] == before.1[i]);
            }
        }
    }
}

/// A page is stored only for a response that was taken, and links are
/// reported only after their page was stored.
pub proof fn store_and_report_follow_in_order(
    request: FetchRequestView,
    phase: PhaseView,
    event: FetchEventView,
)
    ensures
        next(request, phase, event).1 is ReadBody ==> phase is AwaitingResponse,
        next(request, phase, event).1 is Store ==> phase is AwaitingBody,
        next(request, phase, event).1 is Report ==> phase is AwaitingStore && event is Stored,
        phase is Done ==> next(request, phase, event) == (PhaseView::Done, FetchActionView::Stop),
{
}

/// The links of a page hold no link twice, and they are the `href` values
/// that are present.
pub proof fn links_are_distinct(hrefs: Seq<Option<Seq<char>>>)
    ensures
        distinct_links(hrefs).no_duplicates(),
        forall|link: Seq<char>| #[trigger]
            distinct_links(hrefs).contains(link) <==> hrefs.contains(Some(link)),
    decreases hrefs.len(),
{
    if hrefs.len() > 0 {
        let shorter = hrefs.drop_last();
        links_are_distinct(shorter);
        let before = distinct_links(shorter);
        let after = distinct_links(hrefs);
        assert forall|link: Seq<char>| #[trigger] after.contains(link) <==> hrefs.contains(
            Some(link),
        ) by {
            assert(before.contains(link) <==> shorter.contains(Some(link)));
            assert(shorter.contains(Some(link)) ==> hrefs.contains(Some(link))) by {
                if shorter.contains(Some(link)) {
                    let k = choose|k: int| 0 <= k < shorter.len() && shorter[k] == Some(link);
                    assert(hrefs[k] == Some(link));
                }
            }
            assert(before.contains(link) ==> after.contains(link)) by {
                if before.contains(link) {
                    let j = choose|j: int| 0 <= j < before.len() && before[j] == link;
                    assert(after[j] == link);
                }
            }
            if hrefs.contains(Some(link)) && !shorter.contains(Some(link)) {
                let k = choose|k: int| 0 <= k < hrefs.len() && hrefs[k] == Some(link);
                if k < shorter.len() {
                    assert(shorter[k] == Some(link));
                }
                assert(hrefs.last() == Some(link));
                assert(after == before.push(link));
                assert(after[before.len() as int] == link);
            }
            if after.contains(link) && !before.contains(link) {
                let j = choose|j: int| 0 <= j < after.len() && after[j] == link;
                if j < before.len() {
                    assert(before[j] == link);
                }
                assert(hrefs[hrefs.len() - 1] == Some(link));
            }
        }
    }
}

} // verus!
