//! The application's state machine: the URL, the selected card and the one
//! fetch that may be under way.
//!
//! A front end calls the machine once per frame with what the user did.
//! The machine changes its own state and answers with what is to be done
//! outside: a statement for the card store, or a request to fetch.  The
//! front end carries that out and hands a fetch's outcome back with the
//! ticket of its request.

use vstd::prelude::*;
use vstd::string::StringExecFns;
use crate::card::{CardField, CardView};
use crate::http::Response;
use crate::resource::{classified, Resource, ResourceView};
use crate::store::{is_next_active, is_prev_active, CardStore, Statement, StatementView};

verus! {

/// The keys that were pressed in one frame.
#[derive(Clone, Copy, Debug, PartialEq, Eq, Structural)]
pub struct KeysPressed {
    pub arrow_down: bool,
    pub arrow_up: bool,
    pub enter: bool,
    pub backspace: bool,
}

/// Where the fetch stands.
#[derive(Debug, PartialEq, Eq)]
pub enum Fetch {
    /// No fetch was started yet.
    Idle,
    /// The request with this ticket was sent and has not completed.
    Pending { ticket: u64 },
    /// The latest request has completed with this result.
    Ready { result: Result<Resource, String> },
}

/// What a [`Fetch`] holds.
pub enum FetchView {
    Idle,
    Pending { ticket: nat },
    Ready { result: Result<ResourceView, Seq<char>> },
}

/// The outcome of a fetch, by its view.
pub open spec fn result_view(result: Result<Resource, String>) -> Result<ResourceView, Seq<char>> {
    match result {
        Ok(resource) => Ok(resource@),
        Err(error) => Err(error@),
    }
}

impl View for Fetch {
    type V = FetchView;

    open spec fn view(&self) -> FetchView {
        match *self {
            Fetch::Idle => FetchView::Idle,
            Fetch::Pending { ticket } => FetchView::Pending { ticket: ticket as nat },
            Fetch::Ready { result } => FetchView::Ready { result: result_view(result) },
        }
    }
}

/// A request to fetch: a GET of `url`.  When it completes, the cached image
/// of the URL `forget` is to be released, and the outcome is to be handed
/// back under `ticket`.
#[derive(Debug, PartialEq, Eq)]
pub struct FetchRequest {
    pub ticket: u64,
    pub url: String,
    pub forget: String,
}

/// The state of the application.
pub struct HttpApp {
    url: String,
    line_selected: i64,
    fetch: Fetch,
    issued: u64,
}

/// What an [`HttpApp`] holds: the URL in the URL field, the identifier of
/// the selected card, where the fetch stands, and how many fetches were
/// started so far.  Tickets and their count are natural numbers here; the
/// machine counts them in 64 bits.
pub struct HttpAppView {
    pub url: Seq<char>,
    pub line_selected: i64,
    pub fetch: FetchView,
    pub issued: nat,
}

/// The URL that the URL field holds at the start.
pub open spec fn default_url() -> Seq<char> {
    "https://raw.githubusercontent.com/emilk/egui/master/README.md"@
}

/// The URL of a random image for a seed: an image of 640 pixels a side.
pub open spec fn random_image_url_of(seed: Seq<char>) -> Seq<char> {
    "https://picsum.photos/seed/"@ + seed + "/640"@
}

/// The selection after "down" was pressed on `from`: the next active card
/// after it, or `from` itself where there is none.
pub open spec fn moved_down(rows: Seq<CardView>, from: i64, to: i64) -> bool {
    ||| is_next_active(rows, from, Some(to))
    ||| to == from && is_next_active(rows, from, None)
}

/// The selection after "up" was pressed on `from`: the previous active card
/// before it, or `from` itself where there is none.
pub open spec fn moved_up(rows: Seq<CardView>, from: i64, to: i64) -> bool {
    ||| is_prev_active(rows, from, Some(to))
    ||| to == from && is_prev_active(rows, from, None)
}

impl HttpAppView {
    /// The state at the start: the default URL, card 0 selected, no fetch.
    pub open spec fn initial() -> HttpAppView {
        HttpAppView { url: default_url(), line_selected: 0, fetch: FetchView::Idle, issued: 0 }
    }

    /// This state with another card selected.
    pub open spec fn selecting(self, id: i64) -> HttpAppView {
        HttpAppView { line_selected: id, ..self }
    }

    /// This state with another text in the URL field.
    pub open spec fn with_url(self, url: Seq<char>) -> HttpAppView {
        HttpAppView { url, ..self }
    }

    /// The ticket that the next fetch gets.
    pub open spec fn next_ticket(self) -> nat {
        self.issued + 1
    }

    /// This state after a fetch of `url` was started: the fetch is pending
    /// under a fresh ticket, whatever stood there before.
    pub open spec fn submitting(self, url: Seq<char>) -> HttpAppView {
        HttpAppView {
            url,
            fetch: FetchView::Pending { ticket: self.next_ticket() },
            issued: self.next_ticket(),
            ..self
        }
    }

    /// This state after the outcome of the fetch with `ticket` arrived: it
    /// becomes the result where that fetch is the pending one, and is
    /// dropped otherwise.
    pub open spec fn delivering(
        self,
        ticket: nat,
        result: Result<ResourceView, Seq<char>>,
    ) -> HttpAppView {
        if self.fetch == (FetchView::Pending { ticket }) {
            HttpAppView { fetch: FetchView::Ready { result }, ..self }
        } else {
            self
        }
    }
}

impl View for HttpApp {
    type V = HttpAppView;

    closed spec fn view(&self) -> HttpAppView {
        HttpAppView {
            url: self.url@,
            line_selected: self.line_selected,
            fetch: self.fetch@,
            issued: self.issued as nat,
        }
    }
}

/// The URL of a random image for a seed.
pub fn random_image_url(seed: &str) -> (url: String)
    ensures
        url@ == random_image_url_of(seed@),
{
    let mut url = String::from_str("https://picsum.photos/seed/");
    url.append(seed);
    url.append("/640");
    url
}

/// What the completion of a request makes of its outcome: a response is
/// classified, an error is passed on.
pub fn classify_outcome(outcome: Result<Response, String>) -> (result: Result<Resource, String>)
    ensures
        match outcome {
            Ok(response) => result is Ok && result->Ok_0@ == classified(response@),
            Err(error) => result is Err && result->Err_0@ == error@,
        },
{
    match outcome {
        Ok(response) => Ok(Resource::from_response(response)),
        Err(error) => Err(error),
    }
}

impl Default for HttpApp {
    fn default() -> (app: HttpApp)
        ensures
            app@ == HttpAppView::initial(),
    {
        HttpApp {
            url: String::from_str("https://raw.githubusercontent.com/emilk/egui/master/README.md"),
            line_selected: 0,
            fetch: Fetch::Idle,
            issued: 0,
        }
    }
}

impl HttpApp {
    /// The state at the start.
    pub fn new() -> (app: HttpApp)
        ensures
            app@ == HttpAppView::initial(),
    {
        HttpApp::default()
    }

    /// The text in the URL field.
    pub fn url(&self) -> (url: &String)
        ensures
            url@ == self@.url,
    {
        &self.url
    }

    /// The identifier of the selected card.
    pub fn line_selected(&self) -> (id: i64)
        ensures
            id == self@.line_selected,
    {
        self.line_selected
    }

    /// Where the fetch stands.
    pub fn fetch(&self) -> (fetch: &Fetch)
        ensures
            fetch@ == self@.fetch,
    {
        &self.fetch
    }

    /// How many fetches were started so far.
    pub fn fetches_issued(&self) -> (issued: u64)
        ensures
            issued == self@.issued,
    {
        self.issued
    }

    /// Selects the card that was clicked.
    pub fn select(&mut self, id: i64)
        ensures
            final(self)@ == old(self)@.selecting(id),
    {
        self.line_selected = id;
    }

    /// Handles the keys of one frame; at most one of them takes effect, in
    /// the order down, up, enter, backspace.  Down and up move the
    /// selection to the next and the previous active card, and leave it
    /// where no such card exists.  Enter asks for a new card and backspace
    /// for the soft-deletion of the selected one; neither moves the
    /// selection.
    pub fn handle_keys(&mut self, keys: KeysPressed, store: &CardStore) -> (statement: Option<
        Statement,
    >)
        ensures
            final(self)@ == old(self)@.selecting(final(self)@.line_selected),
            if keys.arrow_down {
                statement is None && moved_down(
                    store@,
                    old(self)@.line_selected,
                    final(self)@.line_selected,
                )
            } else if keys.arrow_up {
                statement is None && moved_up(
                    store@,
                    old(self)@.line_selected,
                    final(self)@.line_selected,
                )
            } else {
                &&& final(self)@.line_selected == old(self)@.line_selected
                &&& statement == if keys.enter {
                    Some(Statement::InsertCard)
                } else if keys.backspace {
                    Some(Statement::SoftDelete { id: old(self)@.line_selected })
                } else {
                    None
                }
            },
    {
        if keys.arrow_down {
            match store.next_active_after(self.line_selected) {
                Some(next) => {
                    self.line_selected = next;
                },
                None => {},
            }
            None
        } else if keys.arrow_up {
            match store.prev_active_before(self.line_selected) {
                Some(prev) => {
                    self.line_selected = prev;
                },
                None => {},
            }
            None
        } else if keys.enter {
            Some(Statement::InsertCard)
        } else if keys.backspace {
            Some(Statement::SoftDelete { id: self.line_selected })
        } else {
            None
        }
    }

    /// Handles an editable field of the selected card: where the field has
    /// lost focus and its text differs from the text shown before, the
    /// answer is the statement that writes the new text.
    pub fn field_edited(
        &self,
        field: CardField,
        shown: &String,
        edited: String,
        lost_focus: bool,
    ) -> (statement: Option<Statement>)
        ensures
            match statement {
                Some(statement) => {
                    &&& lost_focus
                    &&& shown@ != edited@
                    &&& statement@ == (StatementView::UpdateField {
                        id: self@.line_selected,
                        field,
                        value: edited@,
                    })
                },
                None => !lost_focus || shown@ == edited@,
            },
    {
        if lost_focus && !(*shown == edited) {
            Some(Statement::UpdateField { id: self.line_selected, field, value: edited })
        } else {
            None
        }
    }

    /// Handles the URL field and the "random image" button.  `edited` is
    /// the field's text after this frame's typing, `lost_focus` says
    /// whether the field was left, and `random_seed` is there when the
    /// button was clicked.  A click replaces the URL by that of a random
    /// image for the seed.  A fetch starts when the field was left or the
    /// button clicked: it replaces any earlier fetch, and its completion
    /// is to release the image cached for the URL that stood in the field
    /// before this frame.
    pub fn url_input(&mut self, edited: String, lost_focus: bool, random_seed: Option<&str>) -> (request:
        Option<FetchRequest>)
        requires
            lost_focus || random_seed is Some ==> old(self)@.issued < u64::MAX,
        ensures
            ({
                let url = match random_seed {
                    Some(seed) => random_image_url_of(seed@),
                    None => edited@,
                };
                if lost_focus || random_seed is Some {
                    &&& final(self)@ == old(self)@.submitting(url)
                    &&& request is Some
                    &&& request->0.ticket == old(self)@.next_ticket()
                    &&& request->0.url@ == url
                    &&& request->0.forget@ == old(self)@.url
                } else {
                    &&& final(self)@ == old(self)@.with_url(url)
                    &&& request is None
                }
            }),
    {
        let mut trigger_fetch = lost_focus;
        let mut url = edited;
        match random_seed {
            Some(seed) => {
                url = random_image_url(seed);
                trigger_fetch = true;
            },
            None => {},
        }
        if trigger_fetch {
            let ticket: u64 = self.issued + 1;
            let mut forget = url.clone();
            core::mem::swap(&mut self.url, &mut forget);
            self.issued = ticket;
            self.fetch = Fetch::Pending { ticket };
            Some(FetchRequest { ticket, url, forget })
        } else {
            self.url = url;
            None
        }
    }

    /// Takes the outcome of the fetch with `ticket`.  It becomes the result
    /// to show where that fetch is the pending one.  The outcome of a fetch
    /// that a later one has replaced, or that was taken already, is
    /// dropped.
    pub fn deliver(&mut self, ticket: u64, result: Result<Resource, String>)
        ensures
            final(self)@ == old(self)@.delivering(ticket as nat, result_view(result)),
    {
        let pending = match &self.fetch {
            Fetch::Pending { ticket: awaited } => *awaited == ticket,
            _ => false,
        };
        if pending {
            self.fetch = Fetch::Ready { result };
        }
    }
}

/// Of two fetches started one after the other, only the second one's
/// outcome is ever taken, in whichever order the two complete and however
/// they end: the first one's outcome changes nothing, before or after the
/// second one's has arrived.  This holds from every state.
pub proof fn lemma_only_the_latest_fetch_is_observed(
    app: HttpAppView,
    url_a: Seq<char>,
    url_b: Seq<char>,
    result_a: Result<ResourceView, Seq<char>>,
    result_b: Result<ResourceView, Seq<char>>,
)
    ensures
        ({
            let started_a = app.submitting(url_a);
            let started_b = started_a.submitting(url_b);
            let ticket_a = started_a.issued;
            let ticket_b = started_b.issued;
            &&& ticket_a != ticket_b
            &&& started_b.fetch == FetchView::Pending { ticket: ticket_b }
            &&& started_b.delivering(ticket_a, result_a) == started_b
            &&& started_b.delivering(ticket_a, result_a).delivering(ticket_b, result_b).fetch
                == FetchView::Ready { result: result_b }
            &&& started_b.delivering(ticket_b, result_b).fetch == FetchView::Ready {
                result: result_b,
            }
            &&& started_b.delivering(ticket_b, result_b).delivering(ticket_a, result_a)
                == started_b.delivering(ticket_b, result_b)
        }),
{
}

/// Starting a fetch makes every earlier one stale: an outcome that arrives
/// under the ticket of any fetch started before changes nothing.
pub proof fn lemma_earlier_fetches_are_dropped(
    app: HttpAppView,
    url: Seq<char>,
    earlier: nat,
    result: Result<ResourceView, Seq<char>>,
)
    requires
        earlier <= app.issued,
    ensures
        app.submitting(url).delivering(earlier, result) == app.submitting(url),
{
}

/// How the fetch moves between its states: starting a fetch makes it
/// pending from whatever state; an outcome moves it on only from pending,
/// and then to ready; a result that is ready stays until the next fetch is
/// started; and neither selecting a card nor typing in the URL field touches
/// the fetch.
pub proof fn lemma_fetch_transitions(
    app: HttpAppView,
    url: Seq<char>,
    id: i64,
    ticket: nat,
    result: Result<ResourceView, Seq<char>>,
)
    ensures
        app.submitting(url).fetch is Pending,
        app.fetch is Pending ==> app.delivering(ticket, result).fetch is Ready
            || app.delivering(ticket, result) == app,
        !(app.fetch is Pending) ==> app.delivering(ticket, result) == app,
        app.selecting(id).fetch == app.fetch,
        app.with_url(url).fetch == app.fetch,
{
}

} // verus!
