//! The gateway: the client that fetches assets under the redirect policy,
//! and what is done with a connection from the moment it is accepted until
//! it is closed.

use crate::asset::{Asset, AssetView, Type};
use crate::error::Failure;
use crate::github::{
    header_views, lemma_fixed_values_valid, lemma_prefixed_value_valid, text_of, user_agent, user_agent_text, GitHub,
};
use crate::http::client::client;
use crate::http::header::{Field, Header};
use crate::http::redirect::custom_policy;
use reqwest::Client;
use std::sync::Arc;
use vstd::prelude::*;

verus! {

/// The headers of the requests for assets. A private repository with a
/// token sends the token, the user agent and the media type that is
/// accepted; any other repository sends nothing of its own.
pub open spec fn download_headers(private: bool, token: Option<Seq<char>>) -> Seq<(Field, Seq<char>)> {
    match token {
        Some(t) if private => seq![
            (Field::Authorization, "token "@ + t),
            (Field::UserAgent, user_agent_text()),
            (Field::Accept, "Accept: application/octet-stream"@),
        ],
        _ => Seq::empty(),
    }
}

/// Where a connection stands.
#[derive(Debug, Clone, PartialEq, Eq)]
pub enum Connection {
    /// No connection was accepted yet.
    Listening,
    /// The connection was accepted and its request is awaited.
    Accepted,
    /// The request asks for this asset, and the fetch for it is under way.
    Dispatching(Asset),
    /// The storage answered, and the response for this asset is begun.
    Proxying(Asset),
    /// The body of this asset is streamed to the caller.
    Streaming(Asset),
    /// The redirect policy halted the fetch.
    RejectedRedirect,
    /// The fetch or the stream failed.
    UpstreamError,
    /// The connection is closed.
    Closed,
}

/// What happened on a connection.
#[derive(Debug, Clone, PartialEq, Eq)]
pub enum Event {
    /// The listener accepted the connection.
    Connected,
    /// A request arrived, and the lookup gave this asset for it.
    Requested(Asset),
    /// The storage answered with a body, of which it reports this MIME string.
    Fetched(String),
    /// The storage answered with a redirect that the policy does not follow.
    Halted,
    /// The fetch or the stream failed.
    Failed,
    /// The head of the response was written.
    Started,
    /// The body was written to its end.
    Finished,
}

/// What is to be done next on a connection.
#[derive(Debug, Clone, PartialEq, Eq)]
pub enum Action {
    /// Wait for the request.
    Await,
    /// Fetch this URL through the client of the server.
    Fetch(String),
    /// Begin the response with this content type.
    Respond(String),
    /// Stream the body as it comes.
    Stream,
    /// Close the connection.
    Close,
}

/// The view of a connection.
pub enum ConnectionView {
    Listening,
    Accepted,
    Dispatching(AssetView),
    Proxying(AssetView),
    Streaming(AssetView),
    RejectedRedirect,
    UpstreamError,
    Closed,
}

/// The view of an event.
pub enum EventView {
    Connected,
    Requested(AssetView),
    Fetched(Seq<char>),
    Halted,
    Failed,
    Started,
    Finished,
}

/// The view of an action.
pub enum ActionView {
    Await,
    Fetch(Seq<char>),
    Respond(Seq<char>),
    Stream,
    Close,
}

impl View for Connection {
    type V = ConnectionView;

    open spec fn view(&self) -> ConnectionView {
        match self {
            Connection::Listening => ConnectionView::Listening,
            Connection::Accepted => ConnectionView::Accepted,
            Connection::Dispatching(a) => ConnectionView::Dispatching(a@),
            Connection::Proxying(a) => ConnectionView::Proxying(a@),
            Connection::Streaming(a) => ConnectionView::Streaming(a@),
            Connection::RejectedRedirect => ConnectionView::RejectedRedirect,
            Connection::UpstreamError => ConnectionView::UpstreamError,
            Connection::Closed => ConnectionView::Closed,
        }
    }
}

impl View for Event {
    type V = EventView;

    open spec fn view(&self) -> EventView {
        match self {
            Event::Connected => EventView::Connected,
            Event::Requested(a) => EventView::Requested(a@),
            Event::Fetched(mime) => EventView::Fetched(mime@),
            Event::Halted => EventView::Halted,
            Event::Failed => EventView::Failed,
            Event::Started => EventView::Started,
            Event::Finished => EventView::Finished,
        }
    }
}

impl View for Action {
    type V = ActionView;

    open spec fn view(&self) -> ActionView {
        match self {
            Action::Await => ActionView::Await,
            Action::Fetch(url) => ActionView::Fetch(url@),
            Action::Respond(content_type) => ActionView::Respond(content_type@),
            Action::Stream => ActionView::Stream,
            Action::Close => ActionView::Close,
        }
    }
}

/// Where a connection goes on an event, and what is done then. An event
/// that does not fit the state closes the connection.
pub open spec fn step(state: ConnectionView, event: EventView) -> (ConnectionView, ActionView) {
    match (state, event) {
        (ConnectionView::Listening, EventView::Connected) => (ConnectionView::Accepted, ActionView::Await),
        (ConnectionView::Accepted, EventView::Requested(asset)) => (
            ConnectionView::Dispatching(asset),
            ActionView::Fetch(asset.url),
        ),
        (ConnectionView::Dispatching(asset), EventView::Fetched(_)) => (
            ConnectionView::Proxying(asset),
            ActionView::Respond(asset.mime.canonical_mime()),
        ),
        (ConnectionView::Dispatching(_), EventView::Halted) => (ConnectionView::RejectedRedirect, ActionView::Close),
        (ConnectionView::Dispatching(_), EventView::Failed) => (ConnectionView::UpstreamError, ActionView::Close),
        (ConnectionView::Proxying(asset), EventView::Started) => (
            ConnectionView::Streaming(asset),
            ActionView::Stream,
        ),
        (ConnectionView::Proxying(_), EventView::Failed) => (ConnectionView::UpstreamError, ActionView::Close),
        (ConnectionView::Streaming(_), EventView::Failed) => (ConnectionView::UpstreamError, ActionView::Close),
        _ => (ConnectionView::Closed, ActionView::Close),
    }
}

/// The gateway that serves the assets of a catalog.
#[derive(Debug)]
pub struct Server {
    github: Arc<GitHub>,
    client: Client,
    headers: Vec<Header>,
    path: Arc<String>,
}

impl Server {
    /// The catalog whose assets are served.
    pub closed spec fn catalog(&self) -> GitHub {
        *self.github
    }

    /// The headers that the client of the server sends with each fetch.
    pub closed spec fn sent_headers(&self) -> Seq<(Field, Seq<char>)> {
        header_views(self.headers@)
    }

    /// The client that fetches assets.
    pub closed spec fn http_client(&self) -> Client {
        self.client
    }

    /// The path under which the assets are served.
    pub closed spec fn served_path(&self) -> Seq<char> {
        (*self.path)@
    }

    /// What is known of a gateway that was set up for a catalog.
    pub open spec fn set_up(&self, github: Arc<GitHub>, path: Arc<String>) -> bool {
        &&& self.catalog() == *github
        &&& self.served_path() == (*path)@
        &&& self.sent_headers() == download_headers(github.private(), text_of(github.args().token))
    }

    /// The headers of the requests for the assets of a catalog.
    pub fn download_headers(github: &GitHub) -> (headers: Vec<Header>)
        ensures
            header_views(headers@) == download_headers(github.private(), text_of(github.args().token)),
    {
        let mut headers: Vec<Header> = Vec::new();
        if github.is_private() {
            if let Some(token) = github.token() {
                proof {
                    lemma_fixed_values_valid();
                    lemma_prefixed_value_valid("token "@, token@);
                }
                let mut value = "token ".to_owned();
                value.append(token);
                headers.push(Header::of_valid(Field::Authorization, value));
                headers.push(Header::of_valid(Field::UserAgent, user_agent().to_owned()));
                headers.push(Header::of_valid(Field::Accept, "Accept: application/octet-stream".to_owned()));
            }
        }
        assert(header_views(headers@) =~= download_headers(github.private(), text_of(github.args().token)));
        headers
    }

    /// Sets up the gateway for a catalog: its client follows redirects by
    /// the redirect policy and sends the headers of a private repository.
    /// It fails where the client is not available.
    pub fn new(github: Arc<GitHub>, path: Arc<String>) -> (r: Result<Server, Failure>)
        ensures
            match r {
                Ok(server) => server.set_up(github, path),
                Err(failure) => failure == Failure::ClientUnavailable,
            },
    {
        let headers = Self::download_headers(&github);
        match client(&headers, Some(custom_policy())) {
            Ok(client) => Ok(Self::with_client(github, path, client)),
            Err(e) => Err(e),
        }
    }

    /// Sets up the gateway for a catalog with a client that is at hand.
    pub fn with_client(github: Arc<GitHub>, path: Arc<String>, client: Client) -> (server: Server)
        ensures
            server.set_up(github, path),
            server.http_client() == client,
    {
        let headers = Self::download_headers(&github);
        Server { github, client, headers, path }
    }

    /// The client that fetches assets.
    pub fn client(&self) -> (r: &Client)
        ensures
            *r == self.http_client(),
    {
        &self.client
    }

    /// The headers that the client sends with each fetch.
    pub fn headers(&self) -> (r: &Vec<Header>)
        ensures
            header_views(r@) == self.sent_headers(),
    {
        &self.headers
    }

    /// The catalog whose assets are served.
    pub fn github(&self) -> (r: &Arc<GitHub>)
        ensures
            **r == self.catalog(),
    {
        &self.github
    }

    /// The path under which the assets are served.
    pub fn path(&self) -> (r: &str)
        ensures
            r@ == self.served_path(),
    {
        self.path.as_str()
    }

    /// The content type of the response for an asset. It is the one that
    /// boot firmware requires for the type of the asset, whatever MIME
    /// string the storage reports.
    pub fn content_type(asset: &Asset, reported: &str) -> (r: &'static str)
        ensures
            r@ == asset.mime.canonical_mime(),
    {
        asset.mime.content_type()
    }

    /// Serves a connection one step: takes the state of the connection and
    /// what happened on it, and gives the next state and what to do.
    pub fn serve(&self, state: Connection, event: Event) -> (r: (Connection, Action))
        ensures
            (r.0@, r.1@) == step(state@, event@),
    {
        match (state, event) {
            (Connection::Listening, Event::Connected) => (Connection::Accepted, Action::Await),
            (Connection::Accepted, Event::Requested(asset)) => {
                let url = asset.url.clone();
                (Connection::Dispatching(asset), Action::Fetch(url))
            },
            (Connection::Dispatching(asset), Event::Fetched(reported)) => {
                let content_type = Self::content_type(&asset, reported.as_str()).to_owned();
                (Connection::Proxying(asset), Action::Respond(content_type))
            },
            (Connection::Dispatching(_), Event::Halted) => (Connection::RejectedRedirect, Action::Close),
            (Connection::Dispatching(_), Event::Failed) => (Connection::UpstreamError, Action::Close),
            (Connection::Proxying(asset), Event::Started) => (Connection::Streaming(asset), Action::Stream),
            (Connection::Proxying(_), Event::Failed) => (Connection::UpstreamError, Action::Close),
            (Connection::Streaming(_), Event::Failed) => (Connection::UpstreamError, Action::Close),
            _ => (Connection::Closed, Action::Close),
        }
    }
}

/// The response for an asset carries the content type that boot firmware
/// requires for its type, whatever MIME string the storage reports: for an
/// EFI module it is `application/efi`.
pub proof fn lemma_response_content_type(asset: AssetView, reported: Seq<char>)
    ensures
        step(ConnectionView::Dispatching(asset), EventView::Fetched(reported)).1 == ActionView::Respond(
            asset.mime.canonical_mime(),
        ),
        asset.mime == Type::Efi ==> step(ConnectionView::Dispatching(asset), EventView::Fetched(reported)).1
            == ActionView::Respond("application/efi"@),
{
}

/// A response is begun only for the asset that is being fetched, and only
/// with the content type of its type.
pub proof fn lemma_respond_only_canonical(state: ConnectionView, event: EventView, content_type: Seq<char>)
    requires
        step(state, event).1 == ActionView::Respond(content_type),
    ensures
        exists|t: Type| content_type == t.canonical_mime(),
        state is Dispatching,
        content_type == state->Dispatching_0.mime.canonical_mime(),
{
    assert(content_type == state->Dispatching_0.mime.canonical_mime());
}

/// A closed connection stays closed, and a connection that failed or whose
/// fetch was halted is closed by whatever happens next.
pub proof fn lemma_failure_closes(state: ConnectionView, event: EventView)
    requires
        state is Closed || state is RejectedRedirect || state is UpstreamError,
    ensures
        step(state, event).0 is Closed,
{
}

/// Whatever fails on a connection ends that connection: from any state a
/// failure leads to a state that the next event closes.
pub proof fn lemma_failure_is_local(state: ConnectionView, next: EventView)
    ensures
        step(step(state, EventView::Failed).0, next).0 is Closed,
        step(step(state, EventView::Halted).0, next).0 is Closed,
{
}

} // verus!
