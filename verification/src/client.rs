//! Heartbeats: what is reported for a document event, when it is worth
//! reporting, where it is sent, and what a reply changes.
use vstd::prelude::*;

use crate::text::{str_equal, to_chars, trim_end_char, trim_end_char_len};
use crate::uri::{
    extract_project, file_path, infer_language_from_uri, language_of_uri, project_name,
    strip_file_scheme,
};

verus! {

/// Seconds after a heartbeat during which the same file is not reported again.
pub open spec fn resend_interval() -> int {
    120
}

/// The server used when no base URL is configured.
pub open spec fn default_base_url() -> Seq<char> {
    "https://codetrackr.fly.dev"@
}

pub fn default_base_url_string() -> (s: String)
    ensures
        s@ == default_base_url(),
{
    "https://codetrackr.fly.dev".to_owned()
}

/// The heartbeat endpoint below a base URL, whatever trailing `/` it has.
pub open spec fn heartbeat_endpoint(base_url: Seq<char>) -> Seq<char> {
    trim_end_char(base_url, '/') + "/api/v1/heartbeat"@
}

/// One activity report.
pub struct HeartbeatPayload {
    pub project: String,
    pub file: String,
    pub lang: String,
    pub branch: String,
    pub editor: String,
    pub os: String,
    pub duration: u64,
    pub is_write: bool,
    pub time: u64,
}

impl HeartbeatPayload {
    /// Whether this is the report for the document at `uri` in language `lang`.
    pub open spec fn describes(
        self,
        uri: Seq<char>,
        lang: Seq<char>,
        is_write: bool,
        time: u64,
        os: Seq<char>,
    ) -> bool {
        &&& self.file@ == file_path(uri)
        &&& self.project@ == project_name(file_path(uri))
        &&& self.lang@ == lang
        &&& self.branch@ == Seq::<char>::empty()
        &&& self.editor@ == "Zed"@
        &&& self.os@ == os
        &&& self.duration == 60
        &&& self.is_write == is_write
        &&& self.time == time
    }

    /// The report for an event on the document at `uri`, made at `time` (seconds
    /// since the Unix epoch) on the operating system `os`.
    pub fn from_lsp_event(uri: &str, language_id: &str, is_write: bool, time: u64, os: &str) -> (p:
        HeartbeatPayload)
        ensures
            p.describes(uri@, language_id@, is_write, time, os@),
    {
        let file_path = strip_file_scheme(uri);
        let project = extract_project(file_path);
        HeartbeatPayload {
            project,
            file: file_path.to_owned(),
            lang: language_id.to_owned(),
            branch: String::new(),
            editor: "Zed".to_owned(),
            os: os.to_owned(),
            duration: 60,
            is_write,
            time,
        }
    }
}

/// An event on a document that the editor reports.
pub enum DocumentEvent {
    Opened { uri: String, language_id: String },
    Changed { uri: String },
    Saved { uri: String },
}

/// What came of sending a heartbeat.
#[derive(PartialEq, Eq, Structural, Clone, Copy, Debug)]
pub enum HeartbeatOutcome {
    /// The server accepted it (status 200 or 201).
    Accepted,
    /// The server answered with another status.
    Refused(u16),
    /// No answer came.
    Unreachable,
}

/// Sends heartbeats and remembers the last one the server accepted.
pub struct CodeTrackrClient {
    pub api_key: String,
    pub base_url: String,
    pub last_file: String,
    pub last_time: u64,
}

impl CodeTrackrClient {
    /// The decision `should_send` makes.
    pub open spec fn would_send(self, file: Seq<char>, is_write: bool, now: u64) -> bool {
        is_write || file != self.last_file@ || now - self.last_time >= resend_interval()
    }

    /// The client after the reply `status` (`None`: no reply) to sending `payload`.
    pub open spec fn after_reply(self, payload: HeartbeatPayload, status: Option<u16>) -> Self {
        if status == Some(200u16) || status == Some(201u16) {
            CodeTrackrClient { last_file: payload.file, last_time: payload.time, ..self }
        } else {
            self
        }
    }

    /// A client configured from the values of `CODETRACKR_API_KEY` and
    /// `CODETRACKR_BASE_URL` (`None` when unset): no key means an empty key, no
    /// URL the default server. Nothing has been sent yet.
    pub fn from_env(api_key: Option<String>, base_url: Option<String>) -> (c: CodeTrackrClient)
        ensures
            c.api_key@ == (match api_key {
                Some(k) => k@,
                None => Seq::<char>::empty(),
            }),
            c.base_url@ == (match base_url {
                Some(u) => u@,
                None => default_base_url(),
            }),
            c.last_file@ == Seq::<char>::empty(),
            c.last_time == 0,
    {
        let api_key = match api_key {
            Some(k) => k,
            None => String::new(),
        };
        let base_url = match base_url {
            Some(u) => u,
            None => default_base_url_string(),
        };
        CodeTrackrClient { api_key, base_url, last_file: String::new(), last_time: 0 }
    }

    /// Whether an event on `file` at `now` is worth a heartbeat: always for a
    /// write, and otherwise when the file differs from the last one reported or
    /// the last report is at least two minutes old.
    pub fn should_send(&self, file: &str, is_write: bool, now: u64) -> (b: bool)
        requires
            !is_write && file@ == self.last_file@ ==> now >= self.last_time,
        ensures
            b == self.would_send(file@, is_write, now),
    {
        is_write || !str_equal(file, self.last_file.as_str()) || now - self.last_time >= 120
    }

    /// The URL to post heartbeats to, or `None` when no API key is set (nothing
    /// is sent then).
    pub fn heartbeat_url(&self) -> (url: Option<String>)
        ensures
            url is None <==> self.api_key@.len() == 0,
            url matches Some(u) ==> u@ == heartbeat_endpoint(self.base_url@),
    {
        if self.api_key.as_str().is_empty() {
            return None;
        }
        let base = self.base_url.as_str();
        let chars = to_chars(base);
        let k = trim_end_char_len(chars.as_slice(), '/');
        let mut url = base.substring_char(0, k).to_owned();
        url.append("/api/v1/heartbeat");
        Some(url)
    }

    /// Takes the server's reply to `payload` (`None`: no reply): an accepted
    /// heartbeat becomes the last one reported.
    pub fn on_heartbeat_reply(&mut self, payload: &HeartbeatPayload, status: Option<u16>) -> (o:
        HeartbeatOutcome)
        ensures
            *final(self) == old(self).after_reply(*payload, status),
            o == match status {
                Some(s) => if s == 200 || s == 201 {
                    HeartbeatOutcome::Accepted
                } else {
                    HeartbeatOutcome::Refused(s)
                },
                None => HeartbeatOutcome::Unreachable,
            },
    {
        match status {
            Some(s) => {
                if s == 200 || s == 201 {
                    self.last_file = payload.file.clone();
                    self.last_time = payload.time;
                    HeartbeatOutcome::Accepted
                } else {
                    HeartbeatOutcome::Refused(s)
                }
            },
            None => HeartbeatOutcome::Unreachable,
        }
    }

    /// The heartbeat, if any, for a document event: an open reports the language
    /// the editor gave, a change or a save the language of the file's extension;
    /// opens and changes are reported only when `should_send` says so at
    /// `check_time`, saves always. The report is made at `time`.
    pub fn heartbeat_for(&self, event: &DocumentEvent, time: u64, check_time: u64, os: &str) -> (r:
        Option<HeartbeatPayload>)
        requires
            match event {
                DocumentEvent::Opened { uri, .. } => file_path(uri@) == self.last_file@
                    ==> check_time >= self.last_time,
                DocumentEvent::Changed { uri } => file_path(uri@) == self.last_file@
                    ==> check_time >= self.last_time,
                DocumentEvent::Saved { .. } => true,
            },
        ensures
            match event {
                DocumentEvent::Opened { uri, language_id } => {
                    &&& r is Some <==> self.would_send(file_path(uri@), false, check_time)
                    &&& r matches Some(p) ==> p.describes(uri@, language_id@, false, time, os@)
                },
                DocumentEvent::Changed { uri } => {
                    &&& r is Some <==> self.would_send(file_path(uri@), false, check_time)
                    &&& r matches Some(p) ==> p.describes(
                        uri@,
                        language_of_uri(uri@),
                        false,
                        time,
                        os@,
                    )
                },
                DocumentEvent::Saved { uri } => {
                    &&& r is Some
                    &&& r matches Some(p) ==> p.describes(
                        uri@,
                        language_of_uri(uri@),
                        true,
                        time,
                        os@,
                    )
                },
            },
    {
        match event {
            DocumentEvent::Opened { uri, language_id } => {
                let p = HeartbeatPayload::from_lsp_event(
                    uri.as_str(),
                    language_id.as_str(),
                    false,
                    time,
                    os,
                );
                if self.should_send(p.file.as_str(), false, check_time) {
                    Some(p)
                } else {
                    None
                }
            },
            DocumentEvent::Changed { uri } => {
                let lang = infer_language_from_uri(uri.as_str());
                let p = HeartbeatPayload::from_lsp_event(
                    uri.as_str(),
                    lang.as_str(),
                    false,
                    time,
                    os,
                );
                if self.should_send(p.file.as_str(), false, check_time) {
                    Some(p)
                } else {
                    None
                }
            },
            DocumentEvent::Saved { uri } => {
                let lang = infer_language_from_uri(uri.as_str());
                Some(HeartbeatPayload::from_lsp_event(uri.as_str(), lang.as_str(), true, time, os))
            },
        }
    }
}

/// After the server accepts a heartbeat, the same file is not reported again
/// (short of a write) until two minutes after that heartbeat's time.
pub proof fn lemma_accepted_heartbeat_throttles(
    client: CodeTrackrClient,
    payload: HeartbeatPayload,
    status: u16,
    now: u64,
)
    requires
        status == 200 || status == 201,
        now >= payload.time,
    ensures
        client.after_reply(payload, Some(status)).would_send(payload.file@, false, now) == (now
            >= payload.time + resend_interval()),
{
}

/// A heartbeat that is refused, or gets no reply, changes nothing: what would
/// have been sent before is sent after.
pub proof fn lemma_failed_heartbeat_changes_nothing(
    client: CodeTrackrClient,
    payload: HeartbeatPayload,
    status: Option<u16>,
)
    requires
        status != Some(200u16) && status != Some(201u16),
    ensures
        client.after_reply(payload, status) == client,
{
}

/// Writes are always reported, and so is any file other than the last one.
pub proof fn lemma_writes_and_new_files_are_sent(
    client: CodeTrackrClient,
    file: Seq<char>,
    is_write: bool,
    now: u64,
)
    requires
        is_write || file != client.last_file@,
    ensures
        client.would_send(file, is_write, now),
{
}

/// Once a file is due for a heartbeat, it stays due as time goes on.
pub proof fn lemma_due_stays_due(
    client: CodeTrackrClient,
    file: Seq<char>,
    is_write: bool,
    now: u64,
    later: u64,
)
    requires
        client.last_time <= now <= later,
        client.would_send(file, is_write, now),
    ensures
        client.would_send(file, is_write, later),
{
}

/// A trailing `/` on the base URL does not change the endpoint.
pub proof fn lemma_endpoint_ignores_trailing_slash(base_url: Seq<char>)
    ensures
        heartbeat_endpoint(base_url.push('/')) == heartbeat_endpoint(base_url),
{
    assert(base_url.push('/').drop_last() == base_url);
}

} // verus!
