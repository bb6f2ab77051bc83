//! What to fetch and where to put it.
//!
//! Every name here is a function of the record's identifier alone, so a
//! second run over the same records asks for the same pages and writes to
//! the same paths. The title takes no part in the file name.

use crate::entry::{entry_views, texts, Entry, EntryView};
use vstd::prelude::*;

verus! {

/// Address of the index page.
pub const INDEX_URL: &'static str = "https://yonde.itazuraneko.org/other/kensaku.html";

/// Local file that receives the index page.
pub const INDEX_FILE: &'static str = "index.html";

/// Directory that receives the entries' pages.
pub const DOWNLOAD_DIR: &'static str = "download";

/// Name of the page-archiving tool.
pub const FETCH_TOOL: &'static str = "monolith";

/// The address of the page of the entry with identifier `id`.
pub open spec fn entry_url_of(id: Seq<char>) -> Seq<char> {
    "https://yonde.itazuraneko.org/novelhtml/"@ + id + ".html"@
}

/// The path, below `dir`, of the page of the entry with identifier `id`.
pub open spec fn output_path_of(dir: Seq<char>, id: Seq<char>) -> Seq<char> {
    dir + "/"@ + id + ".html"@
}

/// One invocation of the page-archiving tool.
#[derive(Debug, Clone, PartialEq, Eq)]
pub struct FetchRequest {
    /// The remote page.
    pub url: String,
    /// The local file that receives it.
    pub output_path: String,
}

/// The mathematical value of a [`FetchRequest`].
pub struct FetchRequestView {
    pub url: Seq<char>,
    pub output_path: Seq<char>,
}

impl View for FetchRequest {
    type V = FetchRequestView;

    open spec fn view(&self) -> FetchRequestView {
        FetchRequestView { url: self.url@, output_path: self.output_path@ }
    }
}

/// The request that fetches `entry` into `dir`.
pub open spec fn request_of(entry: EntryView, dir: Seq<char>) -> FetchRequestView {
    FetchRequestView { url: entry_url_of(entry.id), output_path: output_path_of(dir, entry.id) }
}

/// The shell line that runs a request: the tool, told to be quiet, the page
/// and the output path, ended by a line feed.
pub open spec fn job_line_of(request: FetchRequestView) -> Seq<char> {
    "monolith -s "@ + request.url + " -o "@ + request.output_path + "\n"@
}

/// The address of the page of the entry with identifier `id`.
pub fn entry_url(id: &str) -> (url: String)
    ensures
        url@ == entry_url_of(id@),
{
    let mut url = String::from_str("https://yonde.itazuraneko.org/novelhtml/");
    url.append(id);
    url.append(".html");
    url
}

/// The path, below `dir`, of the page of the entry with identifier `id`.
pub fn output_path(dir: &str, id: &str) -> (path: String)
    ensures
        path@ == output_path_of(dir@, id@),
{
    let mut path = String::from_str(dir);
    path.append("/");
    path.append(id);
    path.append(".html");
    path
}

/// The request that fetches `entry` into `dir`.
pub fn fetch_request(entry: &Entry, dir: &str) -> (request: FetchRequest)
    ensures
        request@ == request_of(entry@, dir@),
{
    FetchRequest {
        url: entry_url(entry.id.as_str()),
        output_path: output_path(dir, entry.id.as_str()),
    }
}

/// The request that fetches the index page.
pub fn index_request() -> (request: FetchRequest)
    ensures
        request@ == (FetchRequestView { url: INDEX_URL@, output_path: INDEX_FILE@ }),
{
    FetchRequest { url: String::from_str(INDEX_URL), output_path: String::from_str(INDEX_FILE) }
}

/// One request per entry, in order.
pub fn fetch_requests(entries: &Vec<Entry>, dir: &str) -> (requests: Vec<FetchRequest>)
    ensures
        requests@.len() == entries@.len(),
        forall|i: int|
            0 <= i < entries@.len() ==> (#[trigger] requests@[i])@ == request_of(
                entries@[i]@,
                dir@,
            ),
{
    let mut requests: Vec<FetchRequest> = Vec::new();
    let mut i: usize = 0;
    while i < entries.len()
        invariant
            i <= entries.len(),
            requests@.len() == i,
            forall|k: int|
                0 <= k < i ==> (#[trigger] requests@[k])@ == request_of(entries@[k]@, dir@),
        decreases entries.len() - i,
    {
        requests.push(fetch_request(&entries[i], dir));
        i += 1;
    }
    requests
}

impl FetchRequest {
    /// The arguments that make the tool fetch quietly into the output path.
    pub open spec fn spec_arguments(self) -> Seq<Seq<char>> {
        seq!["-s"@, self.url@, "-o"@, self.output_path@]
    }

    /// The arguments to hand to the tool, in order.
    pub fn arguments(&self) -> (arguments: Vec<String>)
        ensures
            texts(arguments@) == self.spec_arguments(),
    {
        let mut arguments: Vec<String> = Vec::new();
        arguments.push(String::from_str("-s"));
        arguments.push(self.url.clone());
        arguments.push(String::from_str("-o"));
        arguments.push(self.output_path.clone());
        assert(texts(arguments@) =~= self.spec_arguments());
        arguments
    }

    /// The shell line that runs the request, ended by a line feed.
    pub fn job_line(&self) -> (line: String)
        ensures
            line@ == job_line_of(self@),
    {
        let mut line = String::from_str("monolith -s ");
        line.append(self.url.as_str());
        line.append(" -o ");
        line.append(self.output_path.as_str());
        line.append("\n");
        line
    }
}

/// The job file for the given entries: one shell line per entry, in order.
pub open spec fn job_lines_of(entries: Seq<EntryView>, dir: Seq<char>) -> Seq<char>
    decreases entries.len(),
{
    if entries.len() == 0 {
        Seq::empty()
    } else {
        job_lines_of(entries.drop_last(), dir) + job_line_of(request_of(entries.last(), dir))
    }
}

/// Writes the job file that fetches every entry into `dir`.
pub fn job_lines(entries: &Vec<Entry>, dir: &str) -> (jobs: String)
    ensures
        jobs@ == job_lines_of(entry_views(entries@), dir@),
{
    let mut jobs = String::new();
    let mut i: usize = 0;
    while i < entries.len()
        invariant
            i <= entries.len(),
            jobs@ == job_lines_of(entry_views(entries@).take(i as int), dir@),
        decreases entries.len() - i,
    {
        proof {
            let views = entry_views(entries@);
            assert(views.take(i + 1).drop_last() =~= views.take(i as int));
            assert(views.take(i + 1).last() == entries@[i as int]@);
        }
        let request = fetch_request(&entries[i], dir);
        let line = request.job_line();
        jobs.append(line.as_str());
        i += 1;
    }
    proof {
        let views = entry_views(entries@);
        assert(views.take(views.len() as int) =~= views);
    }
    jobs
}

/// Entries with different identifiers are written to different files, and
/// asked for at different addresses.
pub proof fn lemma_distinct_identifiers_give_distinct_requests(
    dir: Seq<char>,
    a: EntryView,
    b: EntryView,
)
    requires
        a.id != b.id,
    ensures
        request_of(a, dir).output_path != request_of(b, dir).output_path,
        request_of(a, dir).url != request_of(b, dir).url,
{
    lemma_between_same_texts(dir + "/"@, a.id, b.id, ".html"@);
    lemma_between_same_texts("https://yonde.itazuraneko.org/novelhtml/"@, a.id, b.id, ".html"@);
}

/// Two texts that are equal once put between the same head and tail are
/// equal.
proof fn lemma_between_same_texts(head: Seq<char>, a: Seq<char>, b: Seq<char>, tail: Seq<char>)
    ensures
        head + a + tail == head + b + tail ==> a == b,
{
    if head + a + tail == head + b + tail {
        assert((head + a + tail).len() == (head + b + tail).len());
        assert forall|i: int| 0 <= i < a.len() implies a[i] == b[i] by {
            assert((head + a + tail)[head.len() + i] == a[i]);
            assert((head + b + tail)[head.len() + i] == b[i]);
        }
        assert(a =~= b);
    }
}

} // verus!
