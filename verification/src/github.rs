//! The catalog of a repository on the hosting platform: its credential, its
//! milestone index, the assets of its tagged release and the reports that
//! are filed as issues.

use crate::error::Failure;
use crate::http::client::client;
use crate::http::header::{header_char, valid_header_value, Field, Header};
use crate::milestone::{page_view, Listing, Milestone, MilestoneIndex};
use crate::release::{resolve, resolves_to, views_of, Release};
use crate::text::{decimal, decimal_string};
use reqwest::Client;
use vstd::prelude::*;

pub use crate::asset::{Asset, Knowable, Type};

verus! {

/// The view of a text that may be absent.
pub open spec fn text_of(o: Option<String>) -> Option<Seq<char>> {
    match o {
        Some(s) => Some(s@),
        None => None,
    }
}

/// What `str::trim` leaves of a text: the text without the white space at
/// its start and at its end.
pub uninterp spec fn trimmed(text: Seq<char>) -> Seq<char>;

/// Calls `str::trim`, which returns the text without the white space at its
/// start and at its end. The contract gives that result its name and claims
/// no more: what is trimmed depends on the text alone.
#[verifier::external_body]
fn trim(text: &str) -> (r: &str)
    ensures
        r@ == trimmed(text@),
{
    text.trim()
}

/// The token that the output of the session helper yields: the helper must
/// have succeeded, and what is left of its output must not be empty.
pub open spec fn session_credential(success: bool, output: Seq<char>) -> Option<Seq<char>> {
    if success && output.len() > 0 {
        Some(output)
    } else {
        None
    }
}

/// The token in the trimmed output of the session helper, if it succeeded
/// and wrote one.
pub fn accept_session_token(success: bool, output: &str) -> (r: Option<String>)
    ensures
        text_of(r) == session_credential(success, output@),
{
    if success && !output.is_empty() {
        Some(output.to_owned())
    } else {
        None
    }
}

/// The token in the output of the session helper: the output is trimmed
/// first.
pub fn session_token(success: bool, output: &str) -> (r: Option<String>)
    ensures
        text_of(r) == session_credential(success, trimmed(output@)),
{
    accept_session_token(success, trim(output))
}

/// The credential that is used: the one the caller supplied, else the one
/// of the session helper.
pub open spec fn credential(supplied: Option<Seq<char>>, session: Option<Seq<char>>) -> Option<Seq<char>> {
    if supplied is Some {
        supplied
    } else {
        session
    }
}

/// A token can be sent in a header, or there is none to send.
pub open spec fn fits_header(token: Option<Seq<char>>) -> bool {
    match token {
        Some(t) => valid_header_value(t),
        None => true,
    }
}

/// The user agent of every request: the product and its version.
pub open spec fn user_agent_text() -> Seq<char> {
    "dispatch/0.1.0"@
}

/// The user agent of every request: the product and its version.
pub fn user_agent() -> (s: &'static str)
    ensures
        s@ == user_agent_text(),
{
    "dispatch/0.1.0"
}

/// The headers of the requests to the API: the media type that is accepted,
/// the user agent and, with a token, the bearer authorization.
pub open spec fn api_headers(token: Option<Seq<char>>) -> Seq<(Field, Seq<char>)> {
    let fixed = seq![(Field::Accept, "application/vnd.github+json"@), (Field::UserAgent, user_agent_text())];
    match token {
        Some(t) => fixed.push((Field::Authorization, "Bearer "@ + t)),
        None => fixed,
    }
}

/// The address of a repository in the API.
pub open spec fn repository_url(owner: Seq<char>, repo: Seq<char>) -> Seq<char> {
    "https://api.github.com/repos/"@ + owner + "/"@ + repo
}

/// The address of a page of the milestone listing. Pages are counted from
/// one and hold up to a hundred milestones.
pub open spec fn milestones_url(owner: Seq<char>, repo: Seq<char>, page: nat) -> Seq<char> {
    repository_url(owner, repo) + "/milestones?state=all&per_page="@ + decimal(100) + "&page="@ + decimal(page)
}

/// The address of the release with a tag.
pub open spec fn release_url(owner: Seq<char>, repo: Seq<char>, tag: Seq<char>) -> Seq<char> {
    repository_url(owner, repo) + "/releases/tags/"@ + tag
}

/// The address at which issues are created.
pub open spec fn issues_url(owner: Seq<char>, repo: Seq<char>) -> Seq<char> {
    repository_url(owner, repo) + "/issues"@
}

/// The views of a list of headers.
pub open spec fn header_views(headers: Seq<Header>) -> Seq<(Field, Seq<char>)> {
    headers.map_values(|h: Header| h@)
}

/// A test report that is filed as an issue. `M` is what names the
/// milestone: its title in a report that is handed in, its number in one
/// that is sent.
#[derive(Debug, Clone, PartialEq, Eq)]
pub struct Report<M = String> {
    pub title: String,
    pub body: Option<String>,
    pub labels: Option<Vec<String>>,
    pub assignees: Option<Vec<String>>,
    pub milestone: Option<M>,
}

/// The repository to work on and how to reach it.
#[derive(Debug, Clone, PartialEq, Eq)]
pub struct GitHubArgs {
    /// GitHub token for API access
    pub token: Option<String>,
    /// GitHub repository owner
    pub owner: String,
    /// GitHub repository name
    pub repo: String,
    /// Release tag to download assets from
    pub tag: String,
    /// Filter asset names
    pub filter: Vec<String>,
}

impl GitHubArgs {
    /// The arguments with the credential that is used: the token that was
    /// supplied, else the one of the session helper.
    pub open spec fn with_session(self, session: Option<String>) -> GitHubArgs {
        GitHubArgs {
            token: if self.token is Some {
                self.token
            } else {
                session
            },
            owner: self.owner,
            repo: self.repo,
            tag: self.tag,
            filter: self.filter,
        }
    }

    /// Settles the credential and opens the catalog: the token that was
    /// supplied is used, else the one of the session helper. Without either
    /// authentication is required, and no catalog is opened.
    pub fn login(self, session: Option<String>, private: bool) -> (r: Result<GitHub, Failure>)
        ensures
            self.with_session(session).token is None ==> r is Err && r->Err_0 == Failure::AuthenticationRequired,
            self.with_session(session).token is Some ==> GitHub::opening(self.with_session(session), private, r),
    {
        let token = match self.token {
            Some(t) => Some(t),
            None => session,
        };
        match token {
            Some(t) => GitHub::new(
                GitHubArgs { token: Some(t), owner: self.owner, repo: self.repo, tag: self.tag, filter: self.filter },
                private,
            ),
            None => Err(Failure::AuthenticationRequired),
        }
    }

    /// The headers of the requests to the API, if the token can be sent in
    /// a header.
    pub fn headers(&self) -> (r: Result<Vec<Header>, Failure>)
        ensures
            match r {
                Ok(headers) => fits_header(text_of(self.token)) && header_views(headers@) == api_headers(
                    text_of(self.token),
                ),
                Err(failure) => !fits_header(text_of(self.token)) && failure == Failure::InvalidHeaderValue,
            },
    {
        proof {
            lemma_fixed_values_valid();
        }
        let mut headers: Vec<Header> = Vec::new();
        headers.push(Header::of_valid(Field::Accept, "application/vnd.github+json".to_owned()));
        headers.push(Header::of_valid(Field::UserAgent, user_agent().to_owned()));
        if let Some(token) = &self.token {
            let mut value = "Bearer ".to_owned();
            value.append(token.as_str());
            proof {
                lemma_prefixed_value_valid("Bearer "@, token@);
            }
            match Header::new(Field::Authorization, value) {
                Ok(h) => {
                    headers.push(h);
                },
                Err(e) => {
                    return Err(e);
                },
            }
        }
        assert(header_views(headers@) =~= api_headers(text_of(self.token)));
        Ok(headers)
    }
}

/// The fixed header values and prefixes hold only characters that a header
/// value may hold.
pub proof fn lemma_fixed_values_valid()
    ensures
        valid_header_value("application/vnd.github+json"@),
        valid_header_value(user_agent_text()),
        valid_header_value("Bearer "@),
        valid_header_value("token "@),
        valid_header_value("Accept: application/octet-stream"@),
{
    reveal_strlit("application/vnd.github+json");
    reveal_strlit("dispatch/0.1.0");
    reveal_strlit("Bearer ");
    reveal_strlit("token ");
    reveal_strlit("Accept: application/octet-stream");
}

/// A value with a valid prefix is valid exactly when the rest is.
pub proof fn lemma_prefixed_value_valid(prefix: Seq<char>, rest: Seq<char>)
    requires
        valid_header_value(prefix),
    ensures
        valid_header_value(prefix + rest) <==> valid_header_value(rest),
{
    let whole = prefix + rest;
    if valid_header_value(whole) {
        assert forall|i: int| 0 <= i < rest.len() implies header_char(#[trigger] rest[i]) by {
            assert(whole[prefix.len() + i] == rest[i]);
        }
    }
    if valid_header_value(rest) {
        assert forall|i: int| 0 <= i < whole.len() implies header_char(#[trigger] whole[i]) by {
            if i < prefix.len() {
                assert(whole[i] == prefix[i]);
            } else {
                assert(whole[i] == rest[i - prefix.len()]);
            }
        }
    }
}

/// The catalog of a repository: the arguments it was opened with, the
/// client that talks to the API, and the milestone index, which is filled
/// page by page and read from then on.
#[derive(Debug)]
pub struct GitHub {
    args: GitHubArgs,
    private: bool,
    client: Client,
    milestones: MilestoneIndex,
    page: u64,
    loaded: bool,
}

impl GitHub {
    /// The next page has a number from one, and the token can be sent in a
    /// header.
    #[verifier::type_invariant]
    spec fn wf(&self) -> bool {
        &&& self.page >= 1
        &&& fits_header(text_of(self.args.token))
    }

    /// The arguments that the catalog was opened with.
    pub closed spec fn args(&self) -> GitHubArgs {
        self.args
    }

    /// Whether the repository is private.
    pub closed spec fn private(&self) -> bool {
        self.private
    }

    /// The milestone index: the number for each title.
    pub closed spec fn index(&self) -> Map<Seq<char>, u64> {
        self.milestones@
    }

    /// The client that talks to the API.
    pub closed spec fn http_client(&self) -> Client {
        self.client
    }

    /// The number of the next page of the milestone listing.
    pub closed spec fn next_page(&self) -> nat {
        self.page as nat
    }

    /// Whether the milestone listing was read to its end.
    pub closed spec fn loaded(&self) -> bool {
        self.loaded
    }

    /// How far the milestone listing was read.
    pub open spec fn listing(&self) -> Listing {
        Listing { index: self.index(), next_page: self.next_page(), loaded: self.loaded() }
    }

    /// The catalog as it is when it was opened: nothing is indexed and the
    /// first page is next.
    pub open spec fn opened(&self, args: GitHubArgs, private: bool) -> bool {
        &&& self.args() == args
        &&& self.private() == private
        &&& self.listing() == Listing::start()
    }

    /// What opening a catalog gives: with a token that is unfit for a
    /// header it fails on that; else the catalog is opened, unless the
    /// client is not available.
    pub open spec fn opening(args: GitHubArgs, private: bool, r: Result<GitHub, Failure>) -> bool {
        match r {
            Ok(github) => fits_header(text_of(args.token)) && github.opened(args, private),
            Err(failure) => failure == if fits_header(text_of(args.token)) {
                Failure::ClientUnavailable
            } else {
                Failure::InvalidHeaderValue
            },
        }
    }

    /// Opens the catalog of a repository. The token, if there is one, must
    /// be fit for a header, and the client must be available: it is built
    /// to send the headers of `GitHubArgs::headers` with every request.
    pub fn new(args: GitHubArgs, private: bool) -> (r: Result<GitHub, Failure>)
        ensures
            GitHub::opening(args, private, r),
    {
        let headers = match args.headers() {
            Ok(h) => h,
            Err(e) => {
                return Err(e);
            },
        };
        match client(&headers, None) {
            Ok(client) => GitHub::with_client(args, private, client),
            Err(e) => Err(e),
        }
    }

    /// Opens the catalog of a repository with a client that is at hand.
    /// The token, if there is one, must be fit for a header.
    pub fn with_client(args: GitHubArgs, private: bool, client: Client) -> (r: Result<GitHub, Failure>)
        ensures
            match r {
                Ok(github) => fits_header(text_of(args.token)) && github.opened(args, private)
                    && github.http_client() == client,
                Err(failure) => !fits_header(text_of(args.token)) && failure == Failure::InvalidHeaderValue,
            },
    {
        match args.headers() {
            Ok(_) => Ok(GitHub { args, private, client, milestones: MilestoneIndex::new(), page: 1, loaded: false }),
            Err(e) => Err(e),
        }
    }

    /// Whether the repository is private.
    pub fn is_private(&self) -> (r: bool)
        ensures
            r == self.private(),
    {
        self.private
    }

    /// The token, where there is one. It is fit for a header.
    pub fn token(&self) -> (r: Option<&str>)
        ensures
            match r {
                Some(t) => text_of(self.args().token) == Some(t@),
                None => self.args().token is None,
            },
            fits_header(text_of(self.args().token)),
    {
        proof {
            use_type_invariant(self);
        }
        match &self.args.token {
            Some(t) => Some(t.as_str()),
            None => None,
        }
    }

    /// The client that talks to the API.
    pub fn client(&self) -> (r: &Client)
        ensures
            *r == self.http_client(),
    {
        &self.client
    }

    /// The address of the next page of the milestone listing, as long as
    /// the listing was not read to its end.
    pub fn next_request(&self) -> (r: Option<String>)
        ensures
            text_of(r) == if self.loaded() {
                None
            } else {
                Some(milestones_url(self.args().owner@, self.args().repo@, self.next_page()))
            },
    {
        if self.loaded {
            return None;
        }
        let mut url = self.repository();
        url.append("/milestones?state=all&per_page=");
        url.append(decimal_string(100).as_str());
        url.append("&page=");
        url.append(decimal_string(self.page).as_str());
        Some(url)
    }

    /// Takes the page that answered the last request. An empty page ends
    /// the listing; any other is merged into the index, and the page after
    /// it is next. Once the listing is at its end the index is only read:
    /// a page that comes then is dropped.
    pub fn accept_page(&mut self, page: Vec<Milestone>)
        requires
            old(self).loaded() || old(self).next_page() < u64::MAX,
        ensures
            final(self).args() == old(self).args(),
            final(self).private() == old(self).private(),
            final(self).listing() == old(self).listing().take(page_view(page@)),
    {
        proof {
            use_type_invariant(&*self);
        }
        if self.loaded {
            return ;
        }
        if page.len() == 0 {
            self.loaded = true;
        } else {
            let mut index = MilestoneIndex::new();
            core::mem::swap(&mut self.milestones, &mut index);
            index.extend(page);
            core::mem::swap(&mut self.milestones, &mut index);
        }
        self.page = self.page + 1;
    }

    /// The number of pages of the milestone listing that were asked for and
    /// taken.
    pub fn requests(&self) -> (n: u64)
        ensures
            n == self.listing().requests(),
    {
        proof {
            use_type_invariant(self);
        }
        self.page - 1
    }

    /// The number of milestones in the index.
    pub fn milestones(&self) -> (n: usize)
        ensures
            self.index().dom().finite(),
            n == self.index().len(),
    {
        self.milestones.len()
    }

    /// The address of the release whose assets are served.
    pub fn release_request(&self) -> (url: String)
        ensures
            url@ == release_url(self.args().owner@, self.args().repo@, self.args().tag@),
    {
        let mut url = self.repository();
        url.append("/releases/tags/");
        url.append(self.args.tag.as_str());
        url
    }

    /// The address to which a report is posted.
    pub fn report_request(&self) -> (url: String)
        ensures
            url@ == issues_url(self.args().owner@, self.args().repo@),
    {
        let mut url = self.repository();
        url.append("/issues");
        url
    }

    fn repository(&self) -> (url: String)
        ensures
            url@ == repository_url(self.args.owner@, self.args.repo@),
    {
        let mut url = "https://api.github.com/repos/".to_owned();
        url.append(self.args.owner.as_str());
        url.append("/");
        url.append(self.args.repo.as_str());
        url
    }

    /// The assets of a release that can be served: those whose declared
    /// MIME string tags a type and whose name passes the filters of the
    /// catalog, in ascending order, each once.
    pub fn assets(&self, release: Release) -> (out: Vec<Asset>)
        ensures
            resolves_to(release.assets@, self.args().filter.deep_view(), views_of(out@)),
    {
        resolve(release, &self.args.filter)
    }

    /// The number of the milestone with a title.
    pub fn milestone(&self, title: &str) -> (r: Result<u64, Failure>)
        ensures
            r == if self.index().contains_key(title@) {
                Ok::<u64, Failure>(self.index()[title@])
            } else {
                Err::<u64, Failure>(Failure::MilestoneNotFound)
            },
    {
        match self.milestones.get(title) {
            Some(number) => Ok(number),
            None => Err(Failure::MilestoneNotFound),
        }
    }

    /// Makes a report ready to be sent: its fields are kept, and the title
    /// of its milestone gives way to the number that the index holds for
    /// it. A title that the index does not hold is dropped, and the report
    /// goes out without a milestone.
    pub fn report(&self, report: Report) -> (r: Report<u64>)
        ensures
            r.title == report.title,
            r.body == report.body,
            r.labels == report.labels,
            r.assignees == report.assignees,
            r.milestone == match report.milestone {
                Some(t) => if self.index().contains_key(t@) {
                    Some(self.index()[t@])
                } else {
                    None
                },
                None => None,
            },
    {
        let milestone = match report.milestone {
            Some(t) => match self.milestone(t.as_str()) {
                Ok(number) => Some(number),
                Err(_) => None,
            },
            None => None,
        };
        Report { title: report.title, body: report.body, labels: report.labels, assignees: report.assignees, milestone }
    }
}

} // verus!
