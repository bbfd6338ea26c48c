//! What is exchanged with the sources of definitions and with the sinks of
//! reports: addresses, headers, file names, and when to stop asking.

use crate::data::{GetIocResponse, Ioc};
use crate::text::{decimal, push_decimal, push_str, string_of};
use base64::Engine;
use vstd::prelude::*;
use vstd::utf8::encode_utf8;

verus! {

/// Why definitions could not be had or a report could not be handed over.
#[derive(Debug)]
pub struct IocServiceError {
    pub kind: String,
    pub message: String,
}

impl IocServiceError {
    /// The error as one line of text.
    pub open spec fn text(self) -> Seq<char> {
        "IocServiceError(kind: "@ + self.kind@ + ", message: "@ + self.message@ + ")"@
    }

    /// The error as one line of text.
    pub fn to_string(&self) -> (line: String)
        ensures
            line@ == self.text(),
    {
        let mut out: Vec<char> = Vec::new();
        push_str(&mut out, "IocServiceError(kind: ");
        push_str(&mut out, self.kind.as_str());
        push_str(&mut out, ", message: ");
        push_str(&mut out, self.message.as_str());
        push_str(&mut out, ")");
        string_of(out.as_slice())
    }

    /// The error of a file that could not be read or written.
    pub fn file_io(message: String) -> (error: IocServiceError)
        ensures
            error.kind@ == "File IO error"@,
            error.message == message,
    {
        IocServiceError { kind: "File IO error".to_string(), message }
    }

    /// The error of text that is no valid document.
    pub fn json(message: String) -> (error: IocServiceError)
        ensures
            error.kind@ == "Json parsing error"@,
            error.message == message,
    {
        IocServiceError { kind: "Json parsing error".to_string(), message }
    }

    /// The error of a request that the server did not answer as expected.
    pub fn http(message: String) -> (error: IocServiceError)
        ensures
            error.kind@ == "HTTP Error"@,
            error.message == message,
    {
        IocServiceError { kind: "HTTP Error".to_string(), message }
    }
}

/// The definitions of several answers as one answer: all the indicators in
/// order, counted, without a release time.
pub fn merge_responses(responses: Vec<GetIocResponse>) -> (merged: GetIocResponse)
    ensures
        merged.release_datetime is None,
        merged.iocs@ == responses@.map_values(|response: GetIocResponse| response.iocs@).flatten(),
        merged.total_iocs == merged.iocs@.len(),
{
    let mut responses = responses;
    let ghost all = responses@;
    let ghost lists = all.map_values(|response: GetIocResponse| response.iocs@);
    let mut iocs: Vec<Ioc> = Vec::new();
    let mut rest: Vec<GetIocResponse> = Vec::new();
    let mut at: usize = 0;
    let count = responses.len();
    proof {
        assert(lists.take(0) =~= Seq::<Seq<Ioc>>::empty());
        reveal_with_fuel(Seq::flatten, 2);
        assert(lists.take(0).flatten() =~= Seq::<Ioc>::empty());
    }
    while at < count
        invariant
            at <= count,
            count == all.len(),
            responses@.len() == count - at,
            responses@ == all.skip(at as int),
            lists == all.map_values(|response: GetIocResponse| response.iocs@),
            iocs@ == lists.take(at as int).flatten(),
        decreases count - at,
    {
        let mut response = responses.remove(0);
        proof {
            assert(response == all[at as int]);
            assert(responses@ =~= all.skip(at + 1));
            assert(lists.take(at + 1) =~= lists.take(at as int).push(response.iocs@));
            lists.take(at as int).lemma_flatten_push(response.iocs@);
        }
        iocs.append(&mut response.iocs);
        at += 1;
    }
    assert(lists.take(at as int) =~= lists);
    let total_iocs = iocs.len();
    GetIocResponse { release_datetime: None, iocs, total_iocs }
}

/// Reads definitions from files and writes reports to files.
#[derive(Debug)]
pub struct FileIocService {
    ioc_file_paths: Vec<String>,
}

impl FileIocService {
    /// The files of definitions.
    pub closed spec fn paths(self) -> Seq<String> {
        self.ioc_file_paths@
    }

    /// A service over the given files of definitions.
    pub fn new(ioc_file_paths: Vec<String>) -> (service: Self)
        ensures
            service.paths() == ioc_file_paths@,
    {
        FileIocService { ioc_file_paths }
    }

    /// The files of definitions.
    pub fn ioc_file_paths(&self) -> (paths: &Vec<String>)
        ensures
            paths@ == self.paths(),
    {
        &self.ioc_file_paths
    }
}

/// The name of the file that a report is written to; `stamp` is the local
/// time as text.
pub fn report_file_name(stamp: &str) -> (name: String)
    ensures
        name@ == "Report-"@ + stamp@ + ".json"@,
{
    let mut out: Vec<char> = Vec::new();
    push_str(&mut out, "Report-");
    push_str(&mut out, stamp);
    push_str(&mut out, ".json");
    string_of(out.as_slice())
}

/// The name of the file that the report for reading is written to.
pub fn pretty_report_file_name(stamp: &str) -> (name: String)
    ensures
        name@ == "PrettyReport-"@ + stamp@ + ".json"@,
{
    let mut out: Vec<char> = Vec::new();
    push_str(&mut out, "PrettyReport-");
    push_str(&mut out, stamp);
    push_str(&mut out, ".json");
    string_of(out.as_slice())
}

/// The pattern by which the time is written into the names of report
/// files: an underscore, the date, an underscore, the time of day.
pub open spec fn stamp_format() -> Seq<char> {
    "_%Y-%m-%d_%H-%M-%S"@
}

/// The pattern by which the time is written into the names of report
/// files.
pub fn stamp_pattern() -> (pattern: String)
    ensures
        pattern@ == stamp_format(),
{
    "_%Y-%m-%d_%H-%M-%S".to_string()
}

/// The realm that the server names its probes by.
pub open spec fn realm() -> Seq<char> {
    "IOC Server Probes"@
}

/// The text that stands for the bytes in base64, standard alphabet, padded.
pub uninterp spec fn base64_text(bytes: Seq<u8>) -> Seq<char>;

/// `base64::engine::general_purpose::STANDARD.encode`: the bytes in base64
/// with the standard alphabet and padding. It fails only where the length
/// of the text would not fit, which no slice in memory is long enough for.
#[verifier::external_body]
fn base64_of(bytes: &[u8]) -> (text: String)
    ensures
        text@ == base64_text(bytes@),
{
    base64::engine::general_purpose::STANDARD.encode(bytes)
}

/// The credentials of a probe before they are encoded: its name and its
/// key with a colon between them.
pub open spec fn credentials(probe_name: Seq<char>, api_key: Seq<char>) -> Seq<char> {
    probe_name + ":"@ + api_key
}

/// Asks a server for definitions and hands reports to it.
#[derive(Debug)]
pub struct HttpIocService {
    url: String,
    authorization_header_value: String,
    max_iocs: isize,
}

impl HttpIocService {
    /// The address of the server.
    pub closed spec fn url(self) -> Seq<char> {
        self.url@
    }

    /// The encoded credentials.
    pub closed spec fn authorization(self) -> Seq<char> {
        self.authorization_header_value@
    }

    /// How many definitions to fetch at most; no limit where it is below
    /// zero.
    pub closed spec fn max_iocs(self) -> isize {
        self.max_iocs
    }

    /// A service for the server at `url`, with the credentials of the probe
    /// encoded for the authorization header.
    pub fn new(url: String, probe_name: String, api_key: String, max_iocs: isize) -> (service: Self)
        ensures
            service.url() == url@,
            service.max_iocs() == max_iocs,
            service.authorization() == base64_text(
                encode_utf8(credentials(probe_name@, api_key@)),
            ),
    {
        let mut plain: Vec<char> = Vec::new();
        push_str(&mut plain, probe_name.as_str());
        push_str(&mut plain, ":");
        push_str(&mut plain, api_key.as_str());
        let plain = string_of(plain.as_slice());
        let authorization_header_value = base64_of(plain.as_str().as_bytes());
        HttpIocService { url, authorization_header_value, max_iocs }
    }

    /// The address of one page of definitions.
    pub fn get_url(&self, page: u64) -> (address: String)
        ensures
            address@ == self.url() + "/api/probe/auth/get/ioc/"@ + decimal(page as nat),
    {
        let mut out: Vec<char> = Vec::new();
        push_str(&mut out, self.url.as_str());
        push_str(&mut out, "/api/probe/auth/get/ioc/");
        push_decimal(&mut out, page);
        string_of(out.as_slice())
    }

    /// The address that reports are sent to.
    pub fn post_url(&self) -> (address: String)
        ensures
            address@ == self.url() + "/api/probe/auth/post/ioc/result"@,
    {
        let mut out: Vec<char> = Vec::new();
        push_str(&mut out, self.url.as_str());
        push_str(&mut out, "/api/probe/auth/post/ioc/result");
        string_of(out.as_slice())
    }

    /// The value of the authorization header.
    pub fn authorization_header(&self) -> (value: String)
        ensures
            value@ == "Basic "@ + self.authorization(),
    {
        let mut out: Vec<char> = Vec::new();
        push_str(&mut out, "Basic ");
        push_str(&mut out, self.authorization_header_value.as_str());
        string_of(out.as_slice())
    }

    /// The value of the header that names the realm.
    pub fn authenticate_header(&self) -> (value: String)
        ensures
            value@ == "Basic REALM=\""@ + realm() + "\", charset=UTF-8"@,
    {
        let mut out: Vec<char> = Vec::new();
        push_str(&mut out, "Basic REALM=\"");
        push_str(&mut out, "IOC Server Probes");
        push_str(&mut out, "\", charset=UTF-8");
        string_of(out.as_slice())
    }

    /// Whether to ask for another page, once a page was taken in and
    /// `loaded` definitions are there: not after an empty page, and not once
    /// the limit is reached.
    pub fn wants_more(&self, page_was_empty: bool, loaded: usize) -> (more: bool)
        ensures
            more == (!page_was_empty && !(self.max_iocs() > -1 && loaded >= self.max_iocs())),
    {
        if page_was_empty {
            return false;
        }
        if self.max_iocs > -1 {
            if loaded >= self.max_iocs as usize {
                return false;
            }
        }
        true
    }
}

/// The pages of definitions that were taken in so far.
pub struct PagedDownload {
    results: Vec<Ioc>,
    page: u64,
}

impl PagedDownload {
    #[verifier::type_invariant]
    spec fn pages_hold_definitions(self) -> bool {
        self.page <= self.results@.len()
    }

    /// The definitions that were taken in.
    pub closed spec fn loaded(self) -> Seq<Ioc> {
        self.results@
    }

    /// The number of the page to ask for next.
    pub closed spec fn next_page(self) -> u64 {
        self.page
    }

    /// A download that has not begun: the first page to ask for is page
    /// zero.
    pub fn new() -> (download: Self)
        ensures
            download.loaded() == Seq::<Ioc>::empty(),
            download.next_page() == 0,
    {
        PagedDownload { results: Vec::new(), page: 0 }
    }

    /// The number of the page to ask for next.
    pub fn page(&self) -> (page: u64)
        ensures
            page == self.next_page(),
    {
        self.page
    }

    /// Takes in a page. An empty page ends the download and changes
    /// nothing; any other page is appended and counted, and the download
    /// goes on unless the limit of the service is reached.
    pub fn take_page(self, service: &HttpIocService, iocs: Vec<Ioc>) -> (next: (Self, bool))
        ensures
            iocs@.len() == 0 ==> !next.1,
            iocs@.len() == 0 ==> next.0.loaded() == self.loaded(),
            iocs@.len() == 0 ==> next.0.next_page() == self.next_page(),
            iocs@.len() > 0 ==> next.0.loaded() == self.loaded() + iocs@,
            iocs@.len() > 0 ==> next.0.next_page() == self.next_page() + 1,
            iocs@.len() > 0 ==> next.1 == !(service.max_iocs() > -1 && next.0.loaded().len()
                >= service.max_iocs()),
    {
        proof {
            use_type_invariant(&self);
        }
        let mut iocs = iocs;
        if iocs.len() == 0 {
            return (self, false);
        }
        let before = self.page;
        let mut results = self.results;
        results.append(&mut iocs);
        let loaded = results.len();
        assert(before < loaded <= usize::MAX <= u64::MAX);
        let page = before + 1;
        let more = service.wants_more(false, results.len());
        (PagedDownload { results, page }, more)
    }

    /// The answer that the download comes to.
    pub fn finish(self) -> (response: GetIocResponse)
        ensures
            response.release_datetime is None,
            response.iocs@ == self.loaded(),
            response.total_iocs == self.loaded().len(),
    {
        let total_iocs = self.results.len();
        GetIocResponse { release_datetime: None, iocs: self.results, total_iocs }
    }
}

} // verus!
