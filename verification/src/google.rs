//! Google Tasks API: the resources exchanged with the REST API, the
//! addresses of its endpoints, and the client's retry policy. The HTTP
//! transport itself lives outside the crate.
use crate::models::{chrono_rfc3339_text, Timestamp};
use crate::token::{field, form_view};
use vstd::prelude::*;

verus! {

/// A task list as the Google Tasks API returns it.
#[derive(Debug)]
pub struct GoogleTaskList {
    pub id: String,
    pub title: String,
    pub updated: Option<String>,
}

/// One page of task lists.
#[derive(Debug)]
pub struct GoogleTaskListResponse {
    pub items: Option<Vec<GoogleTaskList>>,
    pub next_page_token: Option<String>,
}

/// A task as the Google Tasks API exchanges it.
#[derive(Debug)]
pub struct GoogleTask {
    pub id: Option<String>,
    pub title: Option<String>,
    pub notes: Option<String>,
    /// `needsAction` or `completed`.
    pub status: Option<String>,
    /// `YYYY-MM-DDT00:00:00.000Z`: Google keeps only the date.
    pub due: Option<String>,
    /// RFC 3339.
    pub completed: Option<String>,
    /// RFC 3339.
    pub updated: Option<String>,
    pub parent: Option<String>,
    pub position: Option<String>,
    pub deleted: Option<bool>,
    pub hidden: Option<bool>,
    pub starred: Option<bool>,
}

/// One page of tasks.
#[derive(Debug)]
pub struct GoogleTasksResponse {
    pub items: Option<Vec<GoogleTask>>,
    pub next_page_token: Option<String>,
}

/// The base address of the Google Tasks REST API.
pub open spec fn api_base() -> Seq<char> {
    "https://tasks.googleapis.com/tasks/v1"@
}

/// The address of the authenticated user's task lists.
pub fn task_lists_url() -> (r: String)
    ensures
        r@ == api_base() + "/users/@me/lists"@,
{
    let mut s = String::from_str("https://tasks.googleapis.com/tasks/v1");
    s.append("/users/@me/lists");
    s
}

/// The address of one task list.
pub fn task_list_url(list_id: &str) -> (r: String)
    ensures
        r@ == api_base() + "/users/@me/lists/"@ + list_id@,
{
    let mut s = String::from_str("https://tasks.googleapis.com/tasks/v1");
    s.append("/users/@me/lists/");
    s.append(list_id);
    s
}

/// The address of the tasks of a list.
pub fn tasks_url(list_id: &str) -> (r: String)
    ensures
        r@ == api_base() + "/lists/"@ + list_id@ + "/tasks"@,
{
    let mut s = String::from_str("https://tasks.googleapis.com/tasks/v1");
    s.append("/lists/");
    s.append(list_id);
    s.append("/tasks");
    s
}

/// The address of one task.
pub fn task_url(list_id: &str, task_id: &str) -> (r: String)
    ensures
        r@ == api_base() + "/lists/"@ + list_id@ + "/tasks/"@ + task_id@,
{
    let mut s = String::from_str("https://tasks.googleapis.com/tasks/v1");
    s.append("/lists/");
    s.append(list_id);
    s.append("/tasks/");
    s.append(task_id);
    s
}

/// The address that moves a task.
pub fn task_move_url(list_id: &str, task_id: &str) -> (r: String)
    ensures
        r@ == api_base() + "/lists/"@ + list_id@ + "/tasks/"@ + task_id@ + "/move"@,
{
    let mut s = task_url(list_id, task_id);
    s.append("/move");
    s
}

/// What the client does with an HTTP status.
#[derive(Debug, PartialEq, Eq, Structural)]
pub enum RetryDecision {
    /// The request succeeded.
    Success,
    /// Wait `delay_secs` seconds and try again with `retries_left` retries.
    Retry { wait_secs: u64, retries_left: u32, next_delay_secs: u64 },
    /// Give up and report the error.
    Fail,
}

/// The HTTP status is a success (200 to 299).
pub open spec fn is_success(status: u16) -> bool {
    200 <= status <= 299
}

/// The request is worth retrying: rate limited (429) or a server error
/// (500 to 599).
pub open spec fn is_retryable(status: u16) -> bool {
    status == 429 || (500 <= status <= 599)
}

/// The decision after a response: success ends, a rate limit or server
/// error with retries left waits the current delay and doubles it, anything
/// else fails.
pub open spec fn retry_decision_spec(status: u16, retries: u32, delay_secs: u64) -> RetryDecision {
    if is_success(status) {
        RetryDecision::Success
    } else if is_retryable(status) && retries > 0 {
        RetryDecision::Retry {
            wait_secs: delay_secs,
            retries_left: (retries - 1) as u32,
            next_delay_secs: (delay_secs * 2) as u64,
        }
    } else {
        RetryDecision::Fail
    }
}

/// Decides what to do with an HTTP status, given the retries left and the
/// current backoff delay.
pub fn retry_decision(status: u16, retries: u32, delay_secs: u64) -> (r: RetryDecision)
    requires
        delay_secs <= u64::MAX / 2,
    ensures
        r == retry_decision_spec(status, retries, delay_secs),
{
    if 200 <= status && status <= 299 {
        RetryDecision::Success
    } else if (status == 429 || (500 <= status && status <= 599)) && retries > 0 {
        RetryDecision::Retry {
            wait_secs: delay_secs,
            retries_left: retries - 1,
            next_delay_secs: delay_secs * 2,
        }
    } else {
        RetryDecision::Fail
    }
}

/// The retries of one request end: each retry uses one up, so a request is
/// sent at most four times (three retries), and the waits are 1, 2 and 4
/// seconds.
pub proof fn lemma_retries_bounded(status: u16, retries: u32, delay_secs: u64)
    requires
        delay_secs <= u64::MAX / 2,
    ensures
        retry_decision_spec(status, retries, delay_secs) matches RetryDecision::Retry {
            retries_left,
            wait_secs,
            next_delay_secs,
        } ==> retries_left < retries && wait_secs == delay_secs && next_delay_secs == 2
            * delay_secs,
{
}

/// Credentials of an installed OAuth client, as Google's
/// `client_secret_*.json` holds them.
#[derive(Debug)]
pub struct InstalledDetails {
    pub client_id: String,
    pub client_secret: String,
    pub auth_uri: String,
    pub token_uri: String,
    pub redirect_uris: Vec<String>,
}

/// The OAuth client file.
#[derive(Debug)]
pub struct Credentials {
    pub installed: InstalledDetails,
}

/// The name of a credentials file that Google's console downloads:
/// `client_secret_*.json`.
pub fn is_client_secret_file_name(name: &str) -> (r: bool)
    ensures
        r == (crate::notes::seq_starts_with(name@, "client_secret_"@)
            && crate::notes::seq_ends_with(name@, ".json"@)),
{
    let v = crate::text::chars_of(name);
    crate::text::starts_with(&v, "client_secret_") && crate::text::ends_with(&v, ".json")
}

// ------------------------------------------------------------------
// Queries and pages

fn query_pair(name: &str, value: String) -> (r: (String, String))
    ensures
        r.0@ == name@,
        r.1@ == value@,
{
    (String::from_str(name), value)
}

fn flag_text(b: bool) -> (r: String)
    ensures
        r@ == (if b {
            "true"@
        } else {
            "false"@
        }),
{
    if b {
        String::from_str("true")
    } else {
        String::from_str("false")
    }
}

/// The query of one page of a task listing: completed and hidden tasks as
/// asked, at most 100 tasks a page, edits since `updated_min` where given,
/// and the page token where given.
pub fn list_tasks_query(
    updated_min: Option<Timestamp>,
    show_completed: bool,
    show_hidden: bool,
    page_token: &Option<String>,
) -> (r: Vec<(String, String)>)
    ensures
        form_view(r@) == seq![
            field("showCompleted"@, if show_completed { "true"@ } else { "false"@ }),
            field("showHidden"@, if show_hidden { "true"@ } else { "false"@ }),
            field("maxResults"@, "100"@),
        ] + (match updated_min {
            Some(t) => seq![field("updatedMin"@, chrono_rfc3339_text(t.seconds() as i64, t.subsec() as u32))],
            None => Seq::empty(),
        }) + (match page_token {
            Some(p) => seq![field("pageToken"@, p@)],
            None => Seq::empty(),
        }),
{
    let mut v: Vec<(String, String)> = Vec::new();
    v.push(query_pair("showCompleted", flag_text(show_completed)));
    v.push(query_pair("showHidden", flag_text(show_hidden)));
    v.push(query_pair("maxResults", String::from_str("100")));
    let ghost base = form_view(v@);
    match updated_min {
        Some(t) => {
            v.push(query_pair("updatedMin", t.to_rfc3339()));
        },
        None => {},
    }
    let ghost mid = form_view(v@);
    match page_token {
        Some(p) => {
            v.push(query_pair("pageToken", p.clone()));
        },
        None => {},
    }
    assert(form_view(v@) =~= seq![
        field("showCompleted"@, if show_completed { "true"@ } else { "false"@ }),
        field("showHidden"@, if show_hidden { "true"@ } else { "false"@ }),
        field("maxResults"@, "100"@),
    ] + (match updated_min {
        Some(t) => seq![field("updatedMin"@, chrono_rfc3339_text(t.seconds() as i64, t.subsec() as u32))],
        None => Seq::empty(),
    }) + (match page_token {
        Some(p) => seq![field("pageToken"@, p@)],
        None => Seq::empty(),
    }));
    v
}

/// The query of one page of task lists: the page token where given.
pub fn page_query(page_token: &Option<String>) -> (r: Vec<(String, String)>)
    ensures
        form_view(r@) == (match page_token {
            Some(p) => seq![field("pageToken"@, p@)],
            None => Seq::empty(),
        }),
{
    let mut v: Vec<(String, String)> = Vec::new();
    match page_token {
        Some(p) => {
            v.push(query_pair("pageToken", p.clone()));
        },
        None => {},
    }
    assert(form_view(v@) =~= (match page_token {
        Some(p) => seq![field("pageToken"@, p@)],
        None => Seq::empty(),
    }));
    v
}

/// The query that places a task under a parent and after a sibling, each
/// where given.
pub fn placement_query(parent: &Option<String>, previous: &Option<String>) -> (r: Vec<
    (String, String),
>)
    ensures
        form_view(r@) == (match parent {
            Some(p) => seq![field("parent"@, p@)],
            None => Seq::empty(),
        }) + (match previous {
            Some(p) => seq![field("previous"@, p@)],
            None => Seq::empty(),
        }),
{
    let mut v: Vec<(String, String)> = Vec::new();
    match parent {
        Some(p) => {
            v.push(query_pair("parent", p.clone()));
        },
        None => {},
    }
    match previous {
        Some(p) => {
            v.push(query_pair("previous", p.clone()));
        },
        None => {},
    }
    assert(form_view(v@) =~= (match parent {
        Some(p) => seq![field("parent"@, p@)],
        None => Seq::empty(),
    }) + (match previous {
        Some(p) => seq![field("previous"@, p@)],
        None => Seq::empty(),
    }));
    v
}

/// Adds the items of one page to those gathered so far, and tells whether
/// another page follows (its token).
pub fn gather_page<T>(acc: &mut Vec<T>, items: Option<Vec<T>>, next_page_token: Option<String>) -> (r:
    Option<String>)
    ensures
        final(acc)@ == old(acc)@ + (match items {
            Some(v) => v@,
            None => Seq::empty(),
        }),
        r == next_page_token,
{
    match items {
        Some(mut v) => {
            acc.append(&mut v);
        },
        None => {},
    }
    next_page_token
}

/// The credentials file a directory offers: `oauth_client.json` where it
/// is there, else the first `client_secret_*.json` in the listing.
pub open spec fn credentials_choice(names: Seq<Seq<char>>) -> Option<Seq<char>> {
    if names.contains("oauth_client.json"@) {
        Some("oauth_client.json"@)
    } else {
        first_client_secret(names)
    }
}

/// The first name of a `client_secret_*.json` file.
pub open spec fn first_client_secret(names: Seq<Seq<char>>) -> Option<Seq<char>>
    decreases names.len(),
{
    if names.len() == 0 {
        None
    } else if crate::notes::seq_starts_with(names[0], "client_secret_"@)
        && crate::notes::seq_ends_with(names[0], ".json"@) {
        Some(names[0])
    } else {
        first_client_secret(names.drop_first())
    }
}

/// Picks the credentials file among the names a directory lists.
pub fn credentials_file(names: &Vec<String>) -> (r: Option<String>)
    ensures
        crate::notes::opt_view(r) == credentials_choice(crate::sync::text_views(names@)),
{
    let ghost ns = crate::sync::text_views(names@);
    let mut i: usize = 0;
    while i < names.len()
        invariant
            i <= names@.len(),
            ns == crate::sync::text_views(names@),
            forall|j: int| 0 <= j < i ==> ns[j] != "oauth_client.json"@,
        decreases names.len() - i,
    {
        assert(ns[i as int] == names@[i as int]@);
        if crate::text::eq_str(&crate::text::chars_of(names[i].as_str()), "oauth_client.json") {
            assert(ns.contains("oauth_client.json"@));
            return Some(String::from_str("oauth_client.json"));
        }
        i += 1;
    }
    assert(!ns.contains("oauth_client.json"@));
    let mut k: usize = 0;
    proof {
        assert(ns.skip(0) =~= ns);
    }
    while k < names.len()
        invariant
            k <= names@.len(),
            ns == crate::sync::text_views(names@),
            !ns.contains("oauth_client.json"@),
            first_client_secret(ns) == first_client_secret(ns.skip(k as int)),
        decreases names.len() - k,
    {
        proof {
            assert(ns.skip(k as int)[0] == ns[k as int]);
            assert(ns[k as int] == names@[k as int]@);
            assert(ns.skip(k as int).drop_first() =~= ns.skip(k + 1));
        }
        if is_client_secret_file_name(names[k].as_str()) {
            return Some(names[k].clone());
        }
        k += 1;
    }
    proof {
        assert(ns.skip(k as int).len() == 0);
    }
    None
}

/// The error where no credentials file is found anywhere.
pub fn credentials_not_found_message() -> (r: String)
    ensures
        r@ == "OAuth credentials file not found. Please ensure client_secret_*.json or oauth_client.json exists in the current directory or config directory (~/.config/taskflow/)."@,
{
    String::from_str(
        "OAuth credentials file not found. Please ensure client_secret_*.json or oauth_client.json exists in the current directory or config directory (~/.config/taskflow/).",
    )
}

} // verus!
