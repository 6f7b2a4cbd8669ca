use dispatch::asset::{Asset, Type};
use dispatch::github::{GitHub, GitHubArgs};
use dispatch::http::header::{Field, Header};
use dispatch::http::server::{Action, Connection, Event, Server};
use std::sync::Arc;

fn github(token: Option<&str>, private: bool) -> Arc<GitHub> {
    let args = GitHubArgs {
        token: token.map(|t| t.to_string()),
        owner: "acme".to_string(),
        repo: "boot".to_string(),
        tag: "nightly-42".to_string(),
        filter: vec![],
    };
    Arc::new(GitHub::new(args, private).unwrap())
}

fn server() -> Server {
    Server::new(github(None, false), Arc::new("/boot.efi".to_string())).unwrap()
}

fn efi() -> Asset {
    Asset { name: "boot.efi".to_string(), size: 1, url: "https://example.test/boot.efi".to_string(), mime: Type::Efi }
}

fn sent(server: &Server) -> Vec<(Field, String)> {
    let headers: &[Header] = server.headers();
    headers.iter().map(|h| (h.field(), h.value().to_string())).collect()
}

#[test]
fn server_of_a_private_repository_sends_the_token() {
    let server = Server::new(github(Some("secret"), true), Arc::new("/boot.efi".to_string())).unwrap();
    assert_eq!(
        sent(&server),
        vec![
            (Field::Authorization, "token secret".to_string()),
            (Field::UserAgent, "dispatch/0.1.0".to_string()),
            (Field::Accept, "Accept: application/octet-stream".to_string()),
        ]
    );
    assert_eq!(server.path(), "/boot.efi");
    assert_eq!(server.github().token(), Some("secret"));
}

#[test]
fn server_of_a_public_repository_sends_no_credential() {
    let with_token = Server::new(github(Some("secret"), false), Arc::new(String::new())).unwrap();
    assert_eq!(sent(&with_token), vec![]);
    let without = Server::new(github(None, true), Arc::new(String::new())).unwrap();
    assert_eq!(sent(&without), vec![]);
}

#[test]
fn content_type_ignores_what_the_storage_reports() {
    assert_eq!(Server::content_type(&efi(), "application/octet-stream"), "application/efi");
    assert_eq!(Server::content_type(&efi(), "text/html"), "application/efi");
    assert_eq!(Server::content_type(&efi(), ""), "application/efi");
    let iso = Asset { mime: Type::Iso, ..efi() };
    let img = Asset { mime: Type::Img, ..efi() };
    assert_eq!(Server::content_type(&iso, "application/efi"), "application/vnd.efi-iso");
    assert_eq!(Server::content_type(&img, "application/efi"), "application/vnd.efi-img");
}

#[test]
fn serve_a_connection_to_its_end() {
    let server = server();
    let (state, action) = server.serve(Connection::Listening, Event::Connected);
    assert_eq!((state.clone(), action), (Connection::Accepted, Action::Await));
    let (state, action) = server.serve(state, Event::Requested(efi()));
    assert_eq!(
        (state.clone(), action),
        (Connection::Dispatching(efi()), Action::Fetch("https://example.test/boot.efi".to_string()))
    );
    let (state, action) = server.serve(state, Event::Fetched("application/octet-stream".to_string()));
    assert_eq!((state.clone(), action), (Connection::Proxying(efi()), Action::Respond("application/efi".to_string())));
    let (state, action) = server.serve(state, Event::Started);
    assert_eq!((state.clone(), action), (Connection::Streaming(efi()), Action::Stream));
    let (state, action) = server.serve(state, Event::Finished);
    assert_eq!((state, action), (Connection::Closed, Action::Close));
}

#[test]
fn serve_closes_after_a_halted_redirect() {
    let server = server();
    let (state, action) = server.serve(Connection::Dispatching(efi()), Event::Halted);
    assert_eq!((state.clone(), action), (Connection::RejectedRedirect, Action::Close));
    let (state, action) = server.serve(state, Event::Connected);
    assert_eq!((state, action), (Connection::Closed, Action::Close));
}

#[test]
fn serve_closes_after_a_failure() {
    let server = server();
    for state in [Connection::Dispatching(efi()), Connection::Proxying(efi()), Connection::Streaming(efi())] {
        let (next, action) = server.serve(state, Event::Failed);
        assert_eq!((next.clone(), action), (Connection::UpstreamError, Action::Close));
        let (last, action) = server.serve(next, Event::Finished);
        assert_eq!((last, action), (Connection::Closed, Action::Close));
    }
}

#[test]
fn serve_closes_on_an_event_that_does_not_fit() {
    let server = server();
    assert_eq!(server.serve(Connection::Listening, Event::Started), (Connection::Closed, Action::Close));
    assert_eq!(server.serve(Connection::Accepted, Event::Connected), (Connection::Closed, Action::Close));
    assert_eq!(server.serve(Connection::Listening, Event::Failed), (Connection::Closed, Action::Close));
    assert_eq!(server.serve(Connection::Closed, Event::Requested(efi())), (Connection::Closed, Action::Close));
    assert_eq!(server.serve(Connection::Streaming(efi()), Event::Started), (Connection::Closed, Action::Close));
}

#[test]
fn with_client_sets_up_the_gateway() {
    let server = Server::with_client(github(Some("secret"), true), Arc::new("/x".to_string()), reqwest::Client::new());
    assert_eq!(
        sent(&server),
        vec![
            (Field::Authorization, "token secret".to_string()),
            (Field::UserAgent, "dispatch/0.1.0".to_string()),
            (Field::Accept, "Accept: application/octet-stream".to_string()),
        ]
    );
    assert_eq!(server.path(), "/x");
}

#[test]
fn download_headers_follow_the_repository() {
    let none: Vec<(Field, String)> = vec![];
    let of = |g: Arc<GitHub>| -> Vec<(Field, String)> {
        Server::download_headers(&g).iter().map(|h| (h.field(), h.value().to_string())).collect()
    };
    assert_eq!(of(github(None, false)), none);
    assert_eq!(of(github(None, true)), none);
    assert_eq!(of(github(Some("t"), false)), none);
    assert_eq!(
        of(github(Some("t"), true)),
        vec![
            (Field::Authorization, "token t".to_string()),
            (Field::UserAgent, "dispatch/0.1.0".to_string()),
            (Field::Accept, "Accept: application/octet-stream".to_string()),
        ]
    );
}

#[test]
fn available_hands_a_built_client_on() {
    assert!(dispatch::http::client::available(reqwest::Client::builder().build()).is_ok());
}

#[test]
fn available_reports_a_failure_to_build() {
    let failed = reqwest::Client::new().get("no address").build().err().unwrap();
    assert_eq!(
        dispatch::http::client::available(Err(failed)).err(),
        Some(dispatch::error::Failure::ClientUnavailable)
    );
}
