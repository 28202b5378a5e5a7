//! Remote model catalog: record types, the client capability, and the
//! computing half of the HTTP client — request URLs, pagination
//! decisions and status handling.  The host performs the transport and
//! the JSON decoding, and hands the plain values back.

use vstd::prelude::*;
use vstd::string::StrSliceExecFns;
use vstd::string::StringExecFns;
use crate::errors::EngineError;

verus! {

/// A registered model as the remote catalog reports it.  Timestamps are
/// epoch milliseconds; tags are an opaque name-to-value list.
pub struct MLFlowModel {
    pub name: String,
    pub version: Option<String>,
    pub creation_timestamp: Option<i64>,
    pub last_updated_timestamp: Option<i64>,
    pub description: Option<String>,
    pub tags: Option<Vec<(String, String)>>,
}

/// One version of a registered model.
pub struct MLFlowModelVersion {
    pub name: String,
    pub version: String,
    pub creation_timestamp: Option<i64>,
    pub last_updated_timestamp: Option<i64>,
    pub description: Option<String>,
    pub user_id: Option<String>,
    pub current_stage: Option<String>,
    pub source: Option<String>,
    pub run_id: Option<String>,
    pub status: Option<String>,
    pub tags: Option<Vec<(String, String)>>,
}

/// The catalog operations discovery consumes.  A client implementation
/// owns the transport; nothing is assumed of what it returns, so
/// everything built on this trait holds for every answer.
pub trait MLFlowClientTrait: Sized {
    /// Every registered model, across all pages.
    fn list_models(&self) -> Result<Vec<MLFlowModel>, EngineError>;

    /// Every version of the named model, across all pages.
    fn get_model_versions(&self, model_name: &str) -> Result<Vec<MLFlowModelVersion>, EngineError>;

    /// One registered model, or nothing when the catalog does not know
    /// the name.
    fn get_model(&self, name: &str) -> Result<Option<MLFlowModel>, EngineError>;
}

/// What an url-encoded string reads; writing it out would restate the
/// encoder byte by byte, so callers reason through this name alone.
pub uninterp spec fn url_encoded(s: Seq<char>) -> Seq<char>;

/// Relies on `urlencoding::encode`: percent-encodes every byte except
/// ASCII alphanumerics and `-`, `_`, `.`, `~`; the result is a function
/// of the input alone, and an empty input stays empty.
#[verifier::external_body]
fn url_encode(s: &str) -> (r: String)
    ensures
        r@ == url_encoded(s@),
        s@.len() == 0 ==> r@.len() == 0,
{
    urlencoding::encode(s).into_owned()
}

/// `s` with every trailing `/` removed.
pub open spec fn without_trailing_slashes(s: Seq<char>) -> Seq<char>
    decreases s.len(),
{
    if s.len() > 0 && s[s.len() - 1] == '/' {
        without_trailing_slashes(s.drop_last())
    } else {
        s
    }
}

proof fn lemma_without_trailing_slashes_at(s: Seq<char>, e: int)
    requires
        0 <= e <= s.len(),
        forall|j: int| e <= j < s.len() ==> s[j] == '/',
        e > 0 ==> s[e - 1] != '/',
    ensures
        without_trailing_slashes(s) == s.take(e),
    decreases s.len(),
{
    if s.len() > 0 && s[s.len() - 1] == '/' {
        assert(e < s.len());
        lemma_without_trailing_slashes_at(s.drop_last(), e);
        assert(s.drop_last().take(e) =~= s.take(e));
    } else {
        assert(e == s.len());
        assert(s.take(e) =~= s);
    }
}

/// Full request URL against the remote catalog: the base URL without
/// its trailing slashes, the versioned API prefix, then the endpoint.
pub fn registry_request_url(base_url: &str, endpoint: &str) -> (r: String)
    ensures
        r@ == without_trailing_slashes(base_url@) + "/api/2.0/mlflow/"@ + endpoint@,
{
    let n = base_url.unicode_len();
    let mut e = n;
    let mut done = false;
    while !done
        invariant
            e <= n,
            n == base_url@.len(),
            forall|j: int| e <= j < base_url@.len() ==> base_url@[j] == '/',
            done ==> (e == 0 || base_url@[e - 1] != '/'),
        decreases e + (if done {
            0int
        } else {
            1int
        }),
    {
        if e == 0 {
            done = true;
        } else if base_url.get_char(e - 1) == '/' {
            e = e - 1;
        } else {
            done = true;
        }
    }
    proof {
        lemma_without_trailing_slashes_at(base_url@, e as int);
    }
    let trimmed = base_url.substring_char(0, e);
    let mut url = trimmed.to_owned();
    url.append("/api/2.0/mlflow/");
    url.append(endpoint);
    url
}

/// Endpoint of the paginated catalog listing, with the default page
/// size hint.
pub fn list_models_endpoint() -> (r: String)
    ensures
        r@ == "registered-models/list?max_results=100"@,
{
    "registered-models/list?max_results=100".to_owned()
}

/// Endpoint fetching one registered model by name; the name travels
/// percent-encoded in the query string.
pub fn get_model_endpoint(name: &str) -> (r: String)
    ensures
        r@ == "registered-models/get?name="@ + url_encoded(name@),
{
    let mut url = "registered-models/get?name=".to_owned();
    let encoded = url_encode(name);
    url.append(encoded.as_str());
    url
}

/// Endpoint of the paginated version search, filtered by model name;
/// the name travels percent-encoded inside the query filter.
pub fn model_versions_endpoint(name: &str) -> (r: String)
    ensures
        r@ == "model-versions/search?filter=name%3D%27"@ + url_encoded(name@)
            + "%27&max_results=100"@,
{
    let mut url = "model-versions/search?filter=name%3D%27".to_owned();
    let encoded = url_encode(name);
    url.append(encoded.as_str());
    url.append("%27&max_results=100");
    url
}

/// Endpoint for one page of a paginated listing: the continuation token
/// of the previous page is carried in the query string, if there is one.
pub fn page_endpoint(endpoint: &str, page_token: &Option<String>) -> (r: String)
    ensures
        r@ == match *page_token {
            Some(t) => endpoint@ + "&page_token="@ + t@,
            None => endpoint@,
        },
{
    let mut url = endpoint.to_owned();
    match page_token {
        Some(t) => {
            url.append("&page_token=");
            url.append(t.as_str());
        },
        None => {},
    }
    url
}

/// Where a paginated listing stands after one page was fetched and
/// decoded.
pub enum PageStep<T> {
    /// The server announced another page under this continuation token.
    Continue { collected: Vec<T>, token: String },
    /// The listing is complete.
    Done { collected: Vec<T> },
}

/// Folds one decoded page into the accumulated items and decides
/// whether the listing goes on: it does exactly when the server sent a
/// continuation token.
pub fn accumulate_page<T>(collected: Vec<T>, page_items: Vec<T>, next_token: Option<String>) -> (r:
    PageStep<T>)
    ensures
        match r {
            PageStep::Continue { collected: c, token } => next_token matches Some(t) && token == t
                && c@ == collected@ + page_items@,
            PageStep::Done { collected: c } => next_token is None && c@ == collected@
                + page_items@,
        },
{
    let mut collected = collected;
    let mut page_items = page_items;
    collected.append(&mut page_items);
    match next_token {
        Some(token) => PageStep::Continue { collected, token },
        None => PageStep::Done { collected },
    }
}

/// Decision for one `get-model` answer: a success status yields the
/// decoded model, and a success body that did not decode is a transport
/// failure; a 404 means the catalog does not know the name; any other
/// status is a registry failure carrying status and body.
pub fn get_model_outcome(status: u16, decoded: Option<MLFlowModel>, body: String) -> (r: Result<
    Option<MLFlowModel>,
    EngineError,
>)
    ensures
        200 <= status < 300 && decoded is Some ==> r == Result::<
            Option<MLFlowModel>,
            EngineError,
        >::Ok(decoded),
        200 <= status < 300 && decoded is None ==> (r matches Err(e) && e is RegistryTransport),
        !(200 <= status < 300) && status == 404 ==> r == Result::<
            Option<MLFlowModel>,
            EngineError,
        >::Ok(None),
        !(200 <= status < 300) && status != 404 ==> (r matches Err(e) && e matches
            EngineError::RegistryFailure { status: st, body: b } && st == status && b@ == body@),
    {
        if 200 <= status && status < 300 {
            match decoded {
                Some(model) => Ok(Some(model)),
                None => {
                    let message = "registry answer could not be decoded".to_owned();
                    Err(EngineError::RegistryTransport { message })
                },
            }
        } else if status == 404 {
            Ok(None)
        } else {
            Err(EngineError::RegistryFailure { status, body })
        }
    }

/// Decision for one page answer of a paginated listing: a success
/// status with a decoded page carries on; a success body that did not
/// decode is a transport failure; any other status is a registry
/// failure carrying status and body.
pub fn page_outcome<T>(status: u16, decoded: Option<(Vec<T>, Option<String>)>, body: String) -> (r:
    Result<(Vec<T>, Option<String>), EngineError>)
    ensures
        200 <= status < 300 && decoded is Some ==> r == Result::<
            (Vec<T>, Option<String>),
            EngineError,
        >::Ok(decoded.unwrap()),
        200 <= status < 300 && decoded is None ==> (r matches Err(e) && e is RegistryTransport),
        !(200 <= status < 300) ==> (r matches Err(e) && e matches EngineError::RegistryFailure {
            status: st,
            body: b,
        } && st == status && b@ == body@),
    {
        if 200 <= status && status < 300 {
            match decoded {
                Some(page) => Ok(page),
                None => {
                    let message = "registry answer could not be decoded".to_owned();
                    Err(EngineError::RegistryTransport { message })
                },
            }
        } else {
            Err(EngineError::RegistryFailure { status, body })
        }
    }

} // verus!
