//! Nextcloud integration: sync notebooks via Nextcloud WebDAV.
//!
//! The HTTP exchanges run outside the library; the library builds the URLs,
//! judges the server's status codes and reads the PROPFIND listings.

use vstd::prelude::*;
use vstd::string::*;
use crate::text::{chars_of, concat2, find_from, first_from, occurs, occurs_at, occurs_from, text_of_range};

verus! {

/// Errors of the Nextcloud client.
pub enum NextcloudError {
    ConnectionFailed(String),
    AuthFailed(String),
    ApiError(String),
    Http(String),
}

impl NextcloudError {
    /// A message describing the error.
    pub fn message(&self) -> (res: String)
        ensures
            res@ == match self {
                NextcloudError::ConnectionFailed(s) => "Connection failed: "@ + s@,
                NextcloudError::AuthFailed(s) => "Authentication failed: "@ + s@,
                NextcloudError::ApiError(s) => "API error: "@ + s@,
                NextcloudError::Http(s) => "HTTP error: "@ + s@,
            },
    {
        match self {
            NextcloudError::ConnectionFailed(s) => concat2("Connection failed: ", s.as_str()),
            NextcloudError::AuthFailed(s) => concat2("Authentication failed: ", s.as_str()),
            NextcloudError::ApiError(s) => concat2("API error: ", s.as_str()),
            NextcloudError::Http(s) => concat2("HTTP error: ", s.as_str()),
        }
    }
}

/// Nextcloud server configuration.
pub struct NextcloudConfig {
    pub server_url: String,
    pub username: String,
    pub password: String,
    /// Remote directory for S Notes data.
    pub remote_path: String,
    /// Sync interval in seconds.
    pub sync_interval_secs: u64,
    /// Auto-sync on changes.
    pub auto_sync: bool,
}

impl Default for NextcloudConfig {
    fn default() -> (res: Self)
        ensures
            res.server_url@ == Seq::<char>::empty(),
            res.username@ == Seq::<char>::empty(),
            res.password@ == Seq::<char>::empty(),
            res.remote_path@ == "/S Notes/"@,
            res.sync_interval_secs == 300,
            res.auto_sync,
    {
        NextcloudConfig {
            server_url: String::new(),
            username: String::new(),
            password: String::new(),
            remote_path: "/S Notes/".to_string(),
            sync_interval_secs: 300,
            auto_sync: true,
        }
    }
}

/// Nextcloud server capabilities.
pub struct ServerCapabilities {
    pub version: String,
    pub webdav_url: String,
    pub max_upload_size: u64,
    pub has_notes_app: bool,
}

/// A file or directory entry from a WebDAV PROPFIND listing.
pub struct RemoteEntry {
    pub path: String,
    pub is_directory: bool,
    pub size: u64,
    pub etag: Option<String>,
    pub last_modified: Option<String>,
}

/// `s` without its leading `/` characters.
pub open spec fn trim_leading_slashes(s: Seq<char>) -> Seq<char>
    decreases s.len(),
{
    if s.len() > 0 && s[0] == '/' {
        trim_leading_slashes(s.drop_first())
    } else {
        s
    }
}

/// The WebDAV root of an account: `{server}/remote.php/dav/files/{user}`.
pub open spec fn webdav_root(server_url: Seq<char>, username: Seq<char>) -> Seq<char> {
    server_url + "/remote.php/dav/files/"@ + username
}

/// The status code is a success (2xx).
pub open spec fn is_success(status: u16) -> bool {
    200 <= status <= 299
}

/// The upload limit assumed for a server: 512 MiB.
pub const DEFAULT_MAX_UPLOAD: u64 = 536870912;

/// Nextcloud sync client state.
pub struct NextcloudClient {
    config: NextcloudConfig,
    connected: bool,
}

/// `s` without its leading `/` characters.
fn trim_start_slashes(s: &str) -> (res: String)
    ensures
        res@ == trim_leading_slashes(s@),
{
    let cs = chars_of(s);
    let mut i: usize = 0;
    assert(cs@.skip(0) =~= cs@);
    while i < cs.len() && cs[i] == '/'
        invariant
            i <= cs@.len(),
            cs@ == s@,
            trim_leading_slashes(s@) == trim_leading_slashes(cs@.skip(i as int)),
        decreases cs@.len() - i,
    {
        assert(cs@.skip(i as int).drop_first() =~= cs@.skip(i + 1));
        i = i + 1;
    }
    assert(cs@.skip(i as int) =~= cs@.subrange(i as int, cs@.len() as int));
    text_of_range(&cs, i, cs.len())
}

impl NextcloudClient {
    /// The client's configuration.
    pub closed spec fn config(&self) -> NextcloudConfig {
        self.config
    }

    /// Whether a connection test has succeeded.
    pub closed spec fn connected(&self) -> bool {
        self.connected
    }

    /// A client for `config`, not yet connected.
    pub fn new(config: NextcloudConfig) -> (res: Self)
        ensures
            res.config() == config,
            !res.connected(),
    {
        NextcloudClient { config, connected: false }
    }

    /// The WebDAV URL of a remote path (leading slashes of the path dropped).
    pub fn webdav_url(&self, path: &str) -> (res: String)
        ensures
            res@ == webdav_root(self.config().server_url@, self.config().username@) + seq!['/']
                + trim_leading_slashes(path@),
    {
        let mut url = concat2(self.config.server_url.as_str(), "/remote.php/dav/files/");
        url.append(self.config.username.as_str());
        url.push('/');
        let tail = trim_start_slashes(path);
        url.append(tail.as_str());
        assert(url@ =~= webdav_root(self.config.server_url@, self.config.username@) + seq!['/']
            + trim_leading_slashes(path@));
        url
    }

    /// Whether a connection test has succeeded.
    pub fn is_connected(&self) -> (res: bool)
        ensures
            res == self.connected(),
    {
        self.connected
    }

    /// The client's configuration.
    pub fn config_ref(&self) -> (res: &NextcloudConfig)
        ensures
            *res == self.config(),
    {
        &self.config
    }

    /// The URL of the server's capabilities, asked for in JSON.
    pub fn capabilities_url(&self) -> (res: String)
        ensures
            res@ == self.config().server_url@ + "/ocs/v1.php/cloud/capabilities?format=json"@,
    {
        concat2(self.config.server_url.as_str(), "/ocs/v1.php/cloud/capabilities?format=json")
    }

    /// Judge the answer to the capabilities request of a connection test:
    /// 401 means bad credentials, another non-2xx status an API error, and a
    /// 2xx status a working connection with the assumed capabilities.
    /// `status_text` is the status as the HTTP library prints it.
    pub fn finish_test_connection(&mut self, status: u16, status_text: &str) -> (res: Result<
        ServerCapabilities,
        NextcloudError,
    >)
        ensures
            final(self).config() == old(self).config(),
            status == 401 ==> {
                &&& res matches Err(NextcloudError::AuthFailed(m)) && m@ == "Invalid credentials"@
                &&& final(self).connected() == old(self).connected()
            },
            status != 401 && !is_success(status) ==> {
                &&& res matches Err(NextcloudError::ApiError(m)) && m@ == "Server returned status: "@
                    + status_text@
                &&& final(self).connected() == old(self).connected()
            },
            is_success(status) ==> {
                &&& final(self).connected()
                &&& res matches Ok(caps) && {
                    &&& caps.version@ == "unknown"@
                    &&& caps.webdav_url@ == webdav_root(
                        old(self).config().server_url@,
                        old(self).config().username@,
                    )
                    &&& caps.max_upload_size == DEFAULT_MAX_UPLOAD
                    &&& !caps.has_notes_app
                }
            },
    {
        if status == 401 {
            return Err(NextcloudError::AuthFailed("Invalid credentials".to_string()));
        }
        if !(200 <= status && status <= 299) {
            return Err(NextcloudError::ApiError(concat2("Server returned status: ", status_text)));
        }
        self.connected = true;
        let mut webdav_url = concat2(self.config.server_url.as_str(), "/remote.php/dav/files/");
        webdav_url.append(self.config.username.as_str());
        Ok(
            ServerCapabilities {
                version: "unknown".to_string(),
                webdav_url,
                max_upload_size: DEFAULT_MAX_UPLOAD,
                has_notes_app: false,
            },
        )
    }
}

/// Judge the answer to creating the remote sync directory: a 2xx status
/// (created) or 405 (already there) is fine.
pub fn check_mkcol_status(status: u16, status_text: &str) -> (res: Result<(), NextcloudError>)
    ensures
        is_success(status) || status == 405 ==> res is Ok,
        !(is_success(status) || status == 405) ==> (res matches Err(NextcloudError::ApiError(m)) && m@ == "Failed to create remote directory: "@ + status_text@),
{
    if (200 <= status && status <= 299) || status == 405 {
        Ok(())
    } else {
        Err(NextcloudError::ApiError(concat2("Failed to create remote directory: ", status_text)))
    }
}

/// Judge the answer to an upload: only a 2xx status is a success.
pub fn check_upload_status(status: u16, status_text: &str) -> (res: Result<(), NextcloudError>)
    ensures
        is_success(status) ==> res is Ok,
        !is_success(status) ==> (res matches Err(NextcloudError::ApiError(m)) && m@ == "Upload failed: "@ + status_text@),
{
    if 200 <= status && status <= 299 {
        Ok(())
    } else {
        Err(NextcloudError::ApiError(concat2("Upload failed: ", status_text)))
    }
}

/// Judge the answer to a download: only a 2xx status is a success.
pub fn check_download_status(status: u16, status_text: &str) -> (res: Result<(), NextcloudError>)
    ensures
        is_success(status) ==> res is Ok,
        !is_success(status) ==> (res matches Err(NextcloudError::ApiError(m)) && m@ == "Download failed: "@ + status_text@),
{
    if 200 <= status && status <= 299 {
        Ok(())
    } else {
        Err(NextcloudError::ApiError(concat2("Download failed: ", status_text)))
    }
}

/// Judge the answer to a PROPFIND listing: a 2xx status (207 among them) is a
/// success.
pub fn check_propfind_status(status: u16, status_text: &str) -> (res: Result<(), NextcloudError>)
    ensures
        is_success(status) || status == 207 ==> res is Ok,
        !(is_success(status) || status == 207) ==> (res matches Err(NextcloudError::ApiError(m)) && m@ == "PROPFIND failed: "@ + status_text@),
{
    if (200 <= status && status <= 299) || status == 207 {
        Ok(())
    } else {
        Err(NextcloudError::ApiError(concat2("PROPFIND failed: ", status_text)))
    }
}

/// The opening tag of an entry's path.
pub open spec fn href_open() -> Seq<char> {
    "<d:href>"@
}

/// The closing tag of an entry's path.
pub open spec fn href_close() -> Seq<char> {
    "</d:href>"@
}

/// The marker of a directory entry.
pub open spec fn collection_tag() -> Seq<char> {
    "<d:collection/>"@
}

/// The closing tag of one entry of the listing.
pub open spec fn response_close() -> Seq<char> {
    "</d:response>"@
}

/// Where the entry whose path tag opens at `i` ends: at the first closing
/// response tag after `i`, or at the end of the text when there is none.
pub open spec fn response_end(xml: Seq<char>, i: int) -> int {
    if occurs_from(xml, response_close(), i) {
        choose|e: int| first_from(xml, response_close(), i, e)
    } else {
        xml.len() as int
    }
}

/// `p` occurs in `s` wholly inside the positions `from` up to `to`.
pub open spec fn occurs_within(s: Seq<char>, p: Seq<char>, from: int, to: int) -> bool {
    exists|k: int| from <= k && k + p.len() <= to && occurs_at(s, p, k)
}

/// The path and directory flag read for an entry whose opening tag is at `i`:
/// the text up to the first closing tag after it, and whether a collection
/// marker occurs inside the entry's own response.
pub open spec fn entry_read_at(xml: Seq<char>, i: int) -> (Seq<char>, bool) {
    let j = choose|j: int| first_from(xml, href_close(), i, j);
    (
        xml.subrange(i + href_open().len(), j),
        occurs_within(xml, collection_tag(), i, response_end(xml, i)),
    )
}

/// The entries read from the opening tags at positions below `n`, in order;
/// an opening tag with no closing tag after it is skipped.
pub open spec fn entries_read(xml: Seq<char>, n: int) -> Seq<(Seq<char>, bool)>
    decreases n,
{
    if n <= 0 {
        Seq::empty()
    } else {
        let rest = entries_read(xml, n - 1);
        let i = n - 1;
        if occurs_at(xml, href_open(), i) && occurs_from(xml, href_close(), i) {
            rest.push(entry_read_at(xml, i))
        } else {
            rest
        }
    }
}

/// A closing tag cannot begin inside an opening tag.
proof fn lemma_close_after_open(xml: Seq<char>, i: int, j: int)
    requires
        occurs_at(xml, href_open(), i),
        occurs_at(xml, href_close(), j),
        i <= j,
    ensures
        i + href_open().len() <= j,
{
    reveal_strlit("<d:href>");
    reveal_strlit("</d:href>");
    assert(xml.subrange(i, i + 8)[0] == xml[i]);
    assert(xml.subrange(j, j + 9)[0] == xml[j]);
    assert(xml.subrange(j, j + 9)[1] == xml[j + 1]);
    if j < i + 8 {
        if j == i {
            assert(xml.subrange(i, i + 8)[1] == xml[i + 1]);
        } else {
            let d = j - i;
            assert(xml.subrange(i, i + 8)[d] == xml[j]);
        }
    }
}

/// Read the entries of a PROPFIND listing: one per `<d:href>` tag that a
/// `</d:href>` follows, with the text between them as the path; an entry is a
/// directory when `<d:collection/>` occurs inside its own `<d:response>`,
/// between its path and the next `</d:response>`.
/// Sizes, etags and dates are not read.
pub fn parse_propfind_entries(xml: &str) -> (res: Vec<RemoteEntry>)
    ensures
        res@.map_values(|e: RemoteEntry| (e.path@, e.is_directory)) == entries_read(
            xml@,
            xml@.len() as int,
        ),
        forall|k: int|
            0 <= k < res@.len() ==> {
                &&& (#[trigger] res@[k]).size == 0
                &&& res@[k].etag is None
                &&& res@[k].last_modified is None
            },
{
    let cs = chars_of(xml);
    let open = chars_of("<d:href>");
    let close = chars_of("</d:href>");
    let collection = chars_of("<d:collection/>");
    let response_end_tag = chars_of("</d:response>");
    proof {
        reveal_strlit("<d:href>");
    }
    let mut entries: Vec<RemoteEntry> = Vec::new();
    let mut i: usize = 0;
    while i < cs.len()
        invariant
            cs@ == xml@,
            open@ == href_open(),
            href_open().len() == 8,
            close@ == href_close(),
            collection@ == collection_tag(),
            response_end_tag@ == response_close(),
            i <= cs@.len(),
            entries@.map_values(|e: RemoteEntry| (e.path@, e.is_directory)) == entries_read(
                xml@,
                i as int,
            ),
            forall|k: int|
                0 <= k < entries@.len() ==> {
                    &&& (#[trigger] entries@[k]).size == 0
                    &&& entries@[k].etag is None
                    &&& entries@[k].last_modified is None
                },
        decreases cs@.len() - i,
    {
        if occurs(&cs, &open, i) {
            match find_from(&cs, &close, i) {
                Some(j) => {
                    proof {
                        lemma_close_after_open(xml@, i as int, j as int);
                        let jj = choose|jj: int| first_from(xml@, href_close(), i as int, jj);
                        if jj < j {
                            assert(!occurs_at(xml@, href_close(), jj));
                        }
                        if j < jj {
                            assert(!occurs_at(xml@, href_close(), j as int));
                        }
                    }
                    let path = text_of_range(&cs, i + 8, j);
                    let end = match find_from(&cs, &response_end_tag, i) {
                        Some(e) => {
                            proof {
                                let ee = choose|ee: int|
                                    first_from(xml@, response_close(), i as int, ee);
                                if ee < e {
                                    assert(!occurs_at(xml@, response_close(), ee));
                                }
                                if e < ee {
                                    assert(!occurs_at(xml@, response_close(), e as int));
                                }
                            }
                            e
                        },
                        None => cs.len(),
                    };
                    assert(end == response_end(xml@, i as int));
                    let is_dir = match find_from(&cs, &collection, i) {
                        Some(k) => {
                            let inside = k <= end && collection.len() <= end - k;
                            proof {
                                if !inside {
                                    assert forall|m: int|
                                        i <= m && m + collection_tag().len() <= end && occurs_at(
                                            xml@,
                                            collection_tag(),
                                            m,
                                        ) implies false by {
                                        if m < k {
                                            assert(!occurs_at(xml@, collection_tag(), m));
                                        }
                                    }
                                }
                            }
                            inside
                        },
                        None => false,
                    };
                    entries.push(
                        RemoteEntry { path, is_directory: is_dir, size: 0, etag: None, last_modified: None },
                    );
                },
                None => {},
            }
        }
        assert(entries@.map_values(|e: RemoteEntry| (e.path@, e.is_directory)) =~= entries_read(
            xml@,
            i + 1,
        ));
        i = i + 1;
    }
    entries
}

} // verus!
