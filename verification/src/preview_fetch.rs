//! The steps of fetching a link preview.
//!
//! Fetching alternates network work (resolving a host, downloading a page)
//! with decisions.  The decisions are a state machine: [`start_preview_fetch`]
//! and [`step_preview_fetch`] say, from what the caller reports, what to do
//! next; the caller does the network work.  A YouTube link is first tried
//! through its oEmbed endpoint; any other link, or a YouTube link whose
//! oEmbed answer gives nothing, is read from its page, and from the `www.`
//! variant of the page when the page itself cannot be downloaded.  No address
//! is downloaded before its host has been reported public.
use vstd::prelude::*;

use crate::link_preview::{
    all_public, is_public_ip, is_youtube_host, is_youtube_host_spec, public_ip, IpAddress, metadata_fetch_url, metadata_url_of, oembed_endpoint,
    oembed_endpoint_of, parse_http_url, parsed_http_url, preview_from_html, preview_from_oembed,
    preview_of_oembed, preview_of_page, www_variant, with_www, LinkPreview, ParsedUrl, PreviewParts,
    UrlParts,
};
use crate::encoding::{decimal_string, decimal_text};
use crate::text::{chars_of, extend_range, starts_with, string_of};

verus! {

/// The most of a page that is read for its metadata, in bytes.
pub const MAX_HTML_BYTES: usize = 64 * 1024;

/// The most of an oEmbed answer that is read, in bytes.
pub const MAX_OEMBED_BYTES: usize = 16 * 1024;

/// What `serde_json` reads from `json` at the member `key`: `None` when
/// `json` is not a JSON document, `Some(None)` when the document is not an
/// object, has no member `key`, or has one that is not a string.
pub uninterp spec fn json_string_member(json: Seq<char>, key: Seq<char>) -> Option<Option<Seq<char>>>;

/// `serde_json::from_str::<serde_json::Value>` of `json`, then `Value::get`
/// of `key` and `Value::as_str`: the string member `key` of the document.
/// The contract names the result and claims nothing else of it.
#[verifier::external_body]
fn json_member_str(json: &str, key: &str) -> (r: Option<Option<String>>)
    ensures
        match r {
            None => json_string_member(json@, key@) is None,
            Some(None) => json_string_member(json@, key@) == Some(None::<Seq<char>>),
            Some(Some(s)) => json_string_member(json@, key@) == Some(Some(s@)),
        },
{
    match serde_json::from_str::<serde_json::Value>(json) {
        Ok(document) => match document.get(key).and_then(serde_json::Value::as_str) {
            Some(s) => Some(Some(s.to_string())),
            None => Some(None),
        },
        Err(_) => None,
    }
}

/// The preview of a YouTube link from the oEmbed answer `json`: none when
/// the answer is not a JSON document; otherwise built from its `title`,
/// `provider_name` and `thumbnail_url` members.
pub open spec fn preview_of_oembed_json(parsed: UrlParts, json: Seq<char>) -> Option<PreviewParts> {
    match (
        json_string_member(json, "title"@),
        json_string_member(json, "provider_name"@),
        json_string_member(json, "thumbnail_url"@),
    ) {
        (Some(title), Some(provider_name), Some(thumbnail_url)) => Some(
            preview_of_oembed(parsed, title, provider_name, thumbnail_url),
        ),
        _ => None,
    }
}

/// Builds the preview of the YouTube link `parsed` from its oEmbed answer.
pub fn preview_from_oembed_json(parsed: &ParsedUrl, json: &str) -> (r: Option<LinkPreview>)
    ensures
        match preview_of_oembed_json(parsed@, json@) {
            Some(p) => r matches Some(q) && q@ == p,
            None => r is None,
        },
{
    let title = match json_member_str(json, "title") {
        Some(t) => t,
        None => return None,
    };
    let provider_name = match json_member_str(json, "provider_name") {
        Some(p) => p,
        None => return None,
    };
    let thumbnail_url = match json_member_str(json, "thumbnail_url") {
        Some(t) => t,
        None => return None,
    };
    Some(preview_from_oembed(parsed, title, provider_name, thumbnail_url))
}

/// The `www.` variant of `fetch_url`, as [`www_variant`] gives it.
pub open spec fn www_variant_of(fetch_url: UrlParts, ip_literal: bool) -> Option<UrlParts> {
    if starts_with(fetch_url.host, "www."@) || ip_literal {
        None
    } else {
        parsed_http_url(with_www(fetch_url.url))
    }
}

/// Where fetching a preview stands.
pub enum FetchStage {
    /// The host of the oEmbed endpoint of a YouTube link is being checked.
    CheckingOembed { parsed: UrlParts, endpoint: UrlParts },
    /// The oEmbed answer is being downloaded.
    DownloadingOembed { parsed: UrlParts },
    /// The host of the page is being checked.
    CheckingPage { parsed: UrlParts, fetch_url: UrlParts },
    /// The page is being downloaded; `ip_literal` tells whether its host is
    /// an IP address.
    DownloadingPage { parsed: UrlParts, fetch_url: UrlParts, ip_literal: bool },
    /// The host of the `www.` variant of the page is being checked.
    CheckingFallback { parsed: UrlParts, fetch_url: UrlParts, fallback: UrlParts },
    /// The `www.` variant of the page is being downloaded.
    DownloadingFallback { parsed: UrlParts, fetch_url: UrlParts },
    /// Nothing is left to do.
    Done,
}

/// What the caller is to do next.
pub enum FetchStep {
    /// Report whether the host of this address is public.
    CheckHost(UrlParts),
    /// Download at most `max_bytes` of this address and report the text.
    Download { url: UrlParts, max_bytes: nat },
    /// Stop; the preview, if any.
    Finish(Option<PreviewParts>),
}

/// What the caller reports.
pub enum FetchReport {
    /// Whether the host is an IP address, and whether it is public: an IP
    /// address that [`crate::link_preview::public_ip`] accepts, or a name
    /// that resolves to at least one address, all of them accepted.
    HostChecked { ip_literal: bool, public: bool },
    /// The downloaded text; none when nothing could be downloaded.
    Downloaded(Option<Seq<char>>),
}

/// Fetching the page that describes `parsed`: its host is checked first.
pub open spec fn page_stage(parsed: UrlParts) -> (FetchStage, FetchStep) {
    match parsed_http_url(metadata_url_of(parsed)) {
        Some(f) => (FetchStage::CheckingPage { parsed, fetch_url: f }, FetchStep::CheckHost(f)),
        None => (FetchStage::Done, FetchStep::Finish(None)),
    }
}

/// The first step for the link `url`: nothing for an address that is not an
/// acceptable `http(s)` URL, the oEmbed endpoint for a YouTube link, and the
/// page otherwise.
pub open spec fn fetch_start(url: Seq<char>) -> (FetchStage, FetchStep) {
    match parsed_http_url(url) {
        None => (FetchStage::Done, FetchStep::Finish(None)),
        Some(p) => if is_youtube_host_spec(p.host) {
            match parsed_http_url(oembed_endpoint_of(p)) {
                Some(e) => (
                    FetchStage::CheckingOembed { parsed: p, endpoint: e },
                    FetchStep::CheckHost(e),
                ),
                None => page_stage(p),
            }
        } else {
            page_stage(p)
        },
    }
}

/// The next stage and step after `report` in `stage`.  A report of the
/// wrong kind for the stage ends the fetch without a preview.
pub open spec fn fetch_step(stage: FetchStage, report: FetchReport) -> (FetchStage, FetchStep) {
    match stage {
        FetchStage::CheckingOembed { parsed, endpoint } => match report {
            FetchReport::HostChecked { public, .. } => if public {
                (
                    FetchStage::DownloadingOembed { parsed },
                    FetchStep::Download { url: endpoint, max_bytes: MAX_OEMBED_BYTES as nat },
                )
            } else {
                page_stage(parsed)
            },
            _ => (FetchStage::Done, FetchStep::Finish(None)),
        },
        FetchStage::DownloadingOembed { parsed } => match report {
            FetchReport::Downloaded(Some(json)) => match preview_of_oembed_json(parsed, json) {
                Some(p) => (FetchStage::Done, FetchStep::Finish(Some(p))),
                None => page_stage(parsed),
            },
            FetchReport::Downloaded(None) => page_stage(parsed),
            _ => (FetchStage::Done, FetchStep::Finish(None)),
        },
        FetchStage::CheckingPage { parsed, fetch_url } => match report {
            FetchReport::HostChecked { ip_literal, public } => if public {
                (
                    FetchStage::DownloadingPage { parsed, fetch_url, ip_literal },
                    FetchStep::Download { url: fetch_url, max_bytes: MAX_HTML_BYTES as nat },
                )
            } else {
                (FetchStage::Done, FetchStep::Finish(None))
            },
            _ => (FetchStage::Done, FetchStep::Finish(None)),
        },
        FetchStage::DownloadingPage { parsed, fetch_url, ip_literal } => match report {
            FetchReport::Downloaded(Some(html)) => (
                FetchStage::Done,
                FetchStep::Finish(preview_of_page(parsed, fetch_url, html)),
            ),
            FetchReport::Downloaded(None) => match www_variant_of(fetch_url, ip_literal) {
                Some(fallback) => (
                    FetchStage::CheckingFallback { parsed, fetch_url, fallback },
                    FetchStep::CheckHost(fallback),
                ),
                None => (FetchStage::Done, FetchStep::Finish(None)),
            },
            _ => (FetchStage::Done, FetchStep::Finish(None)),
        },
        FetchStage::CheckingFallback { parsed, fetch_url, fallback } => match report {
            FetchReport::HostChecked { public, .. } => if public {
                (
                    FetchStage::DownloadingFallback { parsed, fetch_url },
                    FetchStep::Download { url: fallback, max_bytes: MAX_HTML_BYTES as nat },
                )
            } else {
                (FetchStage::Done, FetchStep::Finish(None))
            },
            _ => (FetchStage::Done, FetchStep::Finish(None)),
        },
        FetchStage::DownloadingFallback { parsed, fetch_url } => match report {
            FetchReport::Downloaded(Some(html)) => (
                FetchStage::Done,
                FetchStep::Finish(preview_of_page(parsed, fetch_url, html)),
            ),
            _ => (FetchStage::Done, FetchStep::Finish(None)),
        },
        FetchStage::Done => (FetchStage::Done, FetchStep::Finish(None)),
    }
}

/// The address whose host `stage` waits to hear about.
pub open spec fn checked_address(stage: FetchStage) -> Option<UrlParts> {
    match stage {
        FetchStage::CheckingOembed { endpoint, .. } => Some(endpoint),
        FetchStage::CheckingPage { fetch_url, .. } => Some(fetch_url),
        FetchStage::CheckingFallback { fallback, .. } => Some(fallback),
        _ => None,
    }
}

/// How many steps `stage` is at most from the end.
pub open spec fn steps_left(stage: FetchStage) -> nat {
    match stage {
        FetchStage::CheckingOembed { .. } => 6,
        FetchStage::DownloadingOembed { .. } => 5,
        FetchStage::CheckingPage { .. } => 4,
        FetchStage::DownloadingPage { .. } => 3,
        FetchStage::CheckingFallback { .. } => 2,
        FetchStage::DownloadingFallback { .. } => 1,
        FetchStage::Done => 0,
    }
}

/// A download is only ever asked for right after the host of that very
/// address was reported public; the first step never downloads.
pub proof fn lemma_download_only_after_public_check(stage: FetchStage, report: FetchReport, url: Seq<char>)
    ensures
        fetch_step(stage, report).1 matches FetchStep::Download { url: u, .. } ==> {
            &&& report matches FetchReport::HostChecked { public, .. } && public
            &&& checked_address(stage) == Some(u)
        },
        !(fetch_start(url).1 is Download),
{
}

/// Every step moves closer to the end, so that a fetch takes at most six
/// steps after the first; it ends exactly when it finishes.
pub proof fn lemma_fetch_progresses(stage: FetchStage, report: FetchReport, url: Seq<char>)
    ensures
        stage != FetchStage::Done ==> steps_left(fetch_step(stage, report).0) < steps_left(stage),
        (fetch_step(stage, report).0 == FetchStage::Done) <==> (fetch_step(stage, report).1 is Finish),
        (fetch_start(url).0 == FetchStage::Done) <==> (fetch_start(url).1 is Finish),
        steps_left(fetch_start(url).0) <= 6,
{
}

/// A YouTube link whose oEmbed endpoint is not public, whose oEmbed answer
/// cannot be downloaded, or whose answer gives no preview, is read from its
/// page instead: the next step checks the host of the page's metadata
/// address, and the fetch ends without a preview only when that address is
/// not an acceptable URL.  Only an answer that gives a preview ends the fetch
/// at the oEmbed stage, with that preview.
pub proof fn lemma_oembed_failure_reads_page(
    parsed: UrlParts,
    endpoint: UrlParts,
    report: FetchReport,
)
    ensures
        ({
            let refused = (report matches FetchReport::HostChecked { public, .. } && !public);
            refused ==> match parsed_http_url(metadata_url_of(parsed)) {
                Some(f) => fetch_step(FetchStage::CheckingOembed { parsed, endpoint }, report) == (
                    FetchStage::CheckingPage { parsed, fetch_url: f },
                    FetchStep::CheckHost(f),
                ),
                None => fetch_step(FetchStage::CheckingOembed { parsed, endpoint }, report) == (
                    FetchStage::Done,
                    FetchStep::Finish(None),
                ),
            }
        }),
        ({
            let failed = (report matches FetchReport::Downloaded(body) && (body is None || (
            body matches Some(json) && preview_of_oembed_json(parsed, json) is None)));
            failed ==> match parsed_http_url(metadata_url_of(parsed)) {
                Some(f) => fetch_step(FetchStage::DownloadingOembed { parsed }, report) == (
                    FetchStage::CheckingPage { parsed, fetch_url: f },
                    FetchStep::CheckHost(f),
                ),
                None => fetch_step(FetchStage::DownloadingOembed { parsed }, report) == (
                    FetchStage::Done,
                    FetchStep::Finish(None),
                ),
            }
        }),
        match report {
            FetchReport::Downloaded(Some(json)) => match preview_of_oembed_json(parsed, json) {
                Some(p) => fetch_step(FetchStage::DownloadingOembed { parsed }, report) == (
                    FetchStage::Done,
                    FetchStep::Finish(Some(p)),
                ),
                None => true,
            },
            _ => true,
        },
{
}

/// The executable state of a preview fetch.
#[derive(Debug)]
pub enum PreviewFetch {
    CheckingOembed { parsed: ParsedUrl, endpoint: ParsedUrl },
    DownloadingOembed { parsed: ParsedUrl },
    CheckingPage { parsed: ParsedUrl, fetch_url: ParsedUrl },
    DownloadingPage { parsed: ParsedUrl, fetch_url: ParsedUrl, ip_literal: bool },
    CheckingFallback { parsed: ParsedUrl, fetch_url: ParsedUrl, fallback: ParsedUrl },
    DownloadingFallback { parsed: ParsedUrl, fetch_url: ParsedUrl },
    Done,
}

impl View for PreviewFetch {
    type V = FetchStage;

    open spec fn view(&self) -> FetchStage {
        match self {
            PreviewFetch::CheckingOembed { parsed, endpoint } => FetchStage::CheckingOembed {
                parsed: parsed@,
                endpoint: endpoint@,
            },
            PreviewFetch::DownloadingOembed { parsed } => FetchStage::DownloadingOembed {
                parsed: parsed@,
            },
            PreviewFetch::CheckingPage { parsed, fetch_url } => FetchStage::CheckingPage {
                parsed: parsed@,
                fetch_url: fetch_url@,
            },
            PreviewFetch::DownloadingPage { parsed, fetch_url, ip_literal } => {
                FetchStage::DownloadingPage {
                    parsed: parsed@,
                    fetch_url: fetch_url@,
                    ip_literal: *ip_literal,
                }
            },
            PreviewFetch::CheckingFallback { parsed, fetch_url, fallback } => {
                FetchStage::CheckingFallback {
                    parsed: parsed@,
                    fetch_url: fetch_url@,
                    fallback: fallback@,
                }
            },
            PreviewFetch::DownloadingFallback { parsed, fetch_url } => {
                FetchStage::DownloadingFallback { parsed: parsed@, fetch_url: fetch_url@ }
            },
            PreviewFetch::Done => FetchStage::Done,
        }
    }
}

/// What the caller is to do next.
#[derive(Debug)]
pub enum FetchAction {
    /// Check the host of `url`: whether it is an IP address, and whether it
    /// is public.  Report [`FetchEvent::HostChecked`].
    CheckHost(ParsedUrl),
    /// Download at most `max_bytes` of `url`.  Report
    /// [`FetchEvent::Downloaded`].
    Download { url: ParsedUrl, max_bytes: usize },
    /// Stop with this preview.
    Finish(Option<LinkPreview>),
}

impl View for FetchAction {
    type V = FetchStep;

    open spec fn view(&self) -> FetchStep {
        match self {
            FetchAction::CheckHost(u) => FetchStep::CheckHost(u@),
            FetchAction::Download { url, max_bytes } => FetchStep::Download {
                url: url@,
                max_bytes: *max_bytes as nat,
            },
            FetchAction::Finish(p) => FetchStep::Finish(
                match p {
                    Some(q) => Some(q@),
                    None => None,
                },
            ),
        }
    }
}

/// What the caller reports after an action.
#[derive(Debug)]
pub enum FetchEvent {
    HostChecked { ip_literal: bool, public: bool },
    Downloaded(Option<String>),
}

impl View for FetchEvent {
    type V = FetchReport;

    open spec fn view(&self) -> FetchReport {
        match self {
            FetchEvent::HostChecked { ip_literal, public } => FetchReport::HostChecked {
                ip_literal: *ip_literal,
                public: *public,
            },
            FetchEvent::Downloaded(t) => FetchReport::Downloaded(
                match t {
                    Some(s) => Some(s@),
                    None => None,
                },
            ),
        }
    }
}

fn page_phase(parsed: ParsedUrl) -> (r: (PreviewFetch, FetchAction))
    ensures
        (r.0@, r.1@) == page_stage(parsed@),
{
    let target = metadata_fetch_url(&parsed);
    match parse_http_url(target.as_str()) {
        Some(fetch_url) => {
            let check = ParsedUrl {
                url: fetch_url.url.clone(),
                host: fetch_url.host.clone(),
                port: fetch_url.port,
                path: fetch_url.path.clone(),
            };
            (PreviewFetch::CheckingPage { parsed, fetch_url }, FetchAction::CheckHost(check))
        },
        None => (PreviewFetch::Done, FetchAction::Finish(None)),
    }
}

fn copy_url(u: &ParsedUrl) -> (c: ParsedUrl)
    ensures
        c@ == u@,
{
    ParsedUrl { url: u.url.clone(), host: u.host.clone(), port: u.port, path: u.path.clone() }
}

/// Starts fetching the preview of the link `url`.
pub fn start_preview_fetch(url: &str) -> (r: (PreviewFetch, FetchAction))
    ensures
        (r.0@, r.1@) == fetch_start(url@),
{
    let parsed = match parse_http_url(url) {
        Some(p) => p,
        None => return (PreviewFetch::Done, FetchAction::Finish(None)),
    };
    if is_youtube_host(parsed.host.as_str()) {
        let endpoint = oembed_endpoint(&parsed);
        if let Some(e) = parse_http_url(endpoint.as_str()) {
            let check = copy_url(&e);
            return (
                PreviewFetch::CheckingOembed { parsed, endpoint: e },
                FetchAction::CheckHost(check),
            );
        }
    }
    page_phase(parsed)
}

/// The next state and action after `event`.
pub fn step_preview_fetch(state: PreviewFetch, event: FetchEvent) -> (r: (PreviewFetch, FetchAction))
    ensures
        (r.0@, r.1@) == fetch_step(state@, event@),
{
    match state {
        PreviewFetch::CheckingOembed { parsed, endpoint } => match event {
            FetchEvent::HostChecked { public, .. } => if public {
                (
                    PreviewFetch::DownloadingOembed { parsed },
                    FetchAction::Download { url: endpoint, max_bytes: MAX_OEMBED_BYTES },
                )
            } else {
                page_phase(parsed)
            },
            _ => (PreviewFetch::Done, FetchAction::Finish(None)),
        },
        PreviewFetch::DownloadingOembed { parsed } => match event {
            FetchEvent::Downloaded(Some(json)) => match preview_from_oembed_json(
                &parsed,
                json.as_str(),
            ) {
                Some(p) => (PreviewFetch::Done, FetchAction::Finish(Some(p))),
                None => page_phase(parsed),
            },
            FetchEvent::Downloaded(None) => page_phase(parsed),
            _ => (PreviewFetch::Done, FetchAction::Finish(None)),
        },
        PreviewFetch::CheckingPage { parsed, fetch_url } => match event {
            FetchEvent::HostChecked { ip_literal, public } => if public {
                let target = copy_url(&fetch_url);
                (
                    PreviewFetch::DownloadingPage { parsed, fetch_url, ip_literal },
                    FetchAction::Download { url: target, max_bytes: MAX_HTML_BYTES },
                )
            } else {
                (PreviewFetch::Done, FetchAction::Finish(None))
            },
            _ => (PreviewFetch::Done, FetchAction::Finish(None)),
        },
        PreviewFetch::DownloadingPage { parsed, fetch_url, ip_literal } => match event {
            FetchEvent::Downloaded(Some(html)) => (
                PreviewFetch::Done,
                FetchAction::Finish(preview_from_html(&parsed, &fetch_url, html.as_str())),
            ),
            FetchEvent::Downloaded(None) => match www_variant(&fetch_url, ip_literal) {
                Some(fallback) => {
                    let check = copy_url(&fallback);
                    (
                        PreviewFetch::CheckingFallback { parsed, fetch_url, fallback },
                        FetchAction::CheckHost(check),
                    )
                },
                None => (PreviewFetch::Done, FetchAction::Finish(None)),
            },
            _ => (PreviewFetch::Done, FetchAction::Finish(None)),
        },
        PreviewFetch::CheckingFallback { parsed, fetch_url, fallback } => match event {
            FetchEvent::HostChecked { public, .. } => if public {
                (
                    PreviewFetch::DownloadingFallback { parsed, fetch_url },
                    FetchAction::Download { url: fallback, max_bytes: MAX_HTML_BYTES },
                )
            } else {
                (PreviewFetch::Done, FetchAction::Finish(None))
            },
            _ => (PreviewFetch::Done, FetchAction::Finish(None)),
        },
        PreviewFetch::DownloadingFallback { parsed, fetch_url } => match event {
            FetchEvent::Downloaded(Some(html)) => (
                PreviewFetch::Done,
                FetchAction::Finish(preview_from_html(&parsed, &fetch_url, html.as_str())),
            ),
            _ => (PreviewFetch::Done, FetchAction::Finish(None)),
        },
        PreviewFetch::Done => (PreviewFetch::Done, FetchAction::Finish(None)),
    }
}

/// The arguments of the `curl` command that downloads at most `max_bytes` of
/// `url`: quietly, failing on an HTTP error, within four seconds, over HTTP
/// or HTTPS only, asking for the first `max_bytes` bytes.
pub open spec fn download_args(url: Seq<char>, max_bytes: nat) -> Seq<Seq<char>> {
    seq![
        "--silent"@,
        "--show-error"@,
        "--fail"@,
        "--max-time"@,
        "4"@,
        "--proto"@,
        "=http,https"@,
        "--range"@,
        "0-"@ + decimal_text((max_bytes - 1) as nat),
        "--user-agent"@,
        "CommLinkPreview/1.0"@,
        url,
    ]
}

pub fn download_command_args(url: &str, max_bytes: usize) -> (args: Vec<String>)
    requires
        max_bytes >= 1,
    ensures
        args@.map_values(|a: String| a@) == download_args(url@, max_bytes as nat),
{
    let mut range = chars_of("0-");
    let last = decimal_string((max_bytes - 1) as u64);
    extend_range(&mut range, &last, 0, last.len());
    assert(last@.subrange(0, last.len() as int) =~= last@);
    let args = vec![
        String::from_str("--silent"),
        String::from_str("--show-error"),
        String::from_str("--fail"),
        String::from_str("--max-time"),
        String::from_str("4"),
        String::from_str("--proto"),
        String::from_str("=http,https"),
        String::from_str("--range"),
        string_of(&range),
        String::from_str("--user-agent"),
        String::from_str("CommLinkPreview/1.0"),
        String::from_str(url),
    ];
    assert(args@.map_values(|a: String| a@) =~= download_args(url@, max_bytes as nat));
    args
}

/// What to report after checking the host of an address: `ip_literal` is
/// the host read as an IP address, if it is one; otherwise `resolved` holds
/// the addresses that its name resolved to (none when resolving failed).  An
/// IP address must be public; a name must resolve, and only to public
/// addresses.
pub fn host_check_event(ip_literal: Option<IpAddress>, resolved: &Vec<IpAddress>) -> (event: FetchEvent)
    ensures
        event@ == (FetchReport::HostChecked {
            ip_literal: ip_literal is Some,
            public: match ip_literal {
                Some(ip) => is_public_ip(ip),
                None => resolved.len() > 0 && forall|i: int|
                    0 <= i < resolved.len() ==> is_public_ip(#[trigger] resolved@[i]),
            },
        }),
{
    match ip_literal {
        Some(ip) => FetchEvent::HostChecked { ip_literal: true, public: public_ip(ip) },
        None => FetchEvent::HostChecked { ip_literal: false, public: all_public(resolved) },
    }
}

} // verus!
