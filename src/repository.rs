use vstd::prelude::*;

use crate::json::{json_literal, json_string_of};
use crate::model::SyncError;
use vstd::string::StringSliceAdditionalSpecFns;

verus! {

/// Where the run reads from and writes to, and how it signs its commit.
#[derive(Clone, Debug)]
pub struct SyncConfig {
    /// The upstream JSON object whose keys are the property names.
    pub source_url: String,
    pub api_base: String,
    pub owner: String,
    pub repo: String,
    /// The file in the repository that holds the published document.
    pub path: String,
    pub branch: String,
    pub commit_message: String,
    pub committer_name: String,
    pub committer_email: String,
    /// The environment variable that holds the bearer token for the write.
    pub token_variable: String,
}

impl SyncConfig {
    /// The job's fixed settings.
    pub fn standard() -> (r: SyncConfig)
        ensures
            r.source_url@ == "https://raw.githubusercontent.com/mdn/data/master/css/properties.json"@,
            r.api_base@ == "https://api.github.com"@,
            r.owner@ == "MartinKavik"@,
            r.repo@ == "html-css-db"@,
            r.path@ == "css_properties.json"@,
            r.branch@ == "master"@,
            r.commit_message@ == "Updated CSS properties"@,
            r.committer_name@ == "CRON_JOB"@,
            r.committer_email@ == "CRON_JOB"@,
            r.token_variable@ == "GITHUB_TOKEN"@,
    {
        SyncConfig {
            source_url: String::from_str(
                "https://raw.githubusercontent.com/mdn/data/master/css/properties.json",
            ),
            api_base: String::from_str("https://api.github.com"),
            owner: String::from_str("MartinKavik"),
            repo: String::from_str("html-css-db"),
            path: String::from_str("css_properties.json"),
            branch: String::from_str("master"),
            commit_message: String::from_str("Updated CSS properties"),
            committer_name: String::from_str("CRON_JOB"),
            committer_email: String::from_str("CRON_JOB"),
            token_variable: String::from_str("GITHUB_TOKEN"),
        }
    }
}

/// `{api_base}/repos/{owner}/{repo}/contents/{path}`
pub open spec fn contents_url_of(c: SyncConfig) -> Seq<char> {
    c.api_base@ + "/repos/"@ + c.owner@ + "/"@ + c.repo@ + "/contents/"@ + c.path@
}

/// The address of the target file in the hosting API, for reading its
/// revision and for writing it.
pub fn contents_url(config: &SyncConfig) -> (r: String)
    ensures
        r@ == contents_url_of(*config),
{
    let mut r = config.api_base.clone();
    r.append("/repos/");
    r.append(config.owner.as_str());
    r.append("/");
    r.append(config.repo.as_str());
    r.append("/contents/");
    r.append(config.path.as_str());
    r
}

/// The standard, padded base64 text of the UTF-8 bytes of a text.
pub uninterp spec fn base64_of(s: Seq<char>) -> Seq<char>;

/// Relies on `base64::encode` (standard alphabet, padded, no line breaks):
/// the text depends on the input bytes alone, four characters for each
/// started group of three bytes.
#[verifier::external_body]
fn base64_encode(s: &str) -> (r: String)
    ensures
        r@ == base64_of(s@),
        r@.len() == 4 * ((s.spec_bytes().len() + 2) / 3),
{
    base64::encode(s)
}

/// The pretty-printed JSON body of the write, given the JSON string literal
/// of each field.
pub open spec fn put_body_text(
    message: Seq<char>,
    content: Seq<char>,
    sha: Seq<char>,
    name: Seq<char>,
    email: Seq<char>,
    branch: Seq<char>,
) -> Seq<char> {
    "{\n  \"message\": "@ + message + ",\n  \"content\": "@ + content + ",\n  \"sha\": "@ + sha
        + ",\n  \"committer\": {\n    \"name\": "@ + name + ",\n    \"email\": "@ + email
        + "\n  },\n  \"branch\": "@ + branch + "\n}"@
}

/// The body of the write of `content` over the revision `sha`.
pub open spec fn put_body_of(c: SyncConfig, content: Seq<char>, sha: Seq<char>) -> Seq<char> {
    put_body_text(
        json_string_of(c.commit_message@),
        json_string_of(base64_of(content)),
        json_string_of(sha),
        json_string_of(c.committer_name@),
        json_string_of(c.committer_email@),
        json_string_of(c.branch@),
    )
}

/// Lays out the body of the write from the JSON string literal of each
/// field.
pub fn render_put_body(
    message: &str,
    content: &str,
    sha: &str,
    name: &str,
    email: &str,
    branch: &str,
) -> (r: String)
    ensures
        r@ == put_body_text(message@, content@, sha@, name@, email@, branch@),
{
    let mut b = String::from_str("{\n  \"message\": ");
    b.append(message);
    b.append(",\n  \"content\": ");
    b.append(content);
    b.append(",\n  \"sha\": ");
    b.append(sha);
    b.append(",\n  \"committer\": {\n    \"name\": ");
    b.append(name);
    b.append(",\n    \"email\": ");
    b.append(email);
    b.append("\n  },\n  \"branch\": ");
    b.append(branch);
    b.append("\n}");
    proof {
        assert(b@ =~= put_body_text(message@, content@, sha@, name@, email@, branch@));
    }
    b
}

/// The JSON body of the write: commit message, base64 of the new content,
/// the revision it replaces, committer and branch.
pub fn put_request_body(config: &SyncConfig, content: &str, sha: &str) -> (r: String)
    ensures
        r@ == put_body_of(*config, content@, sha@),
{
    let encoded = base64_encode(content);
    let message = json_literal(config.commit_message.as_str());
    let content_q = json_literal(encoded.as_str());
    let sha_q = json_literal(sha);
    let name = json_literal(config.committer_name.as_str());
    let email = json_literal(config.committer_email.as_str());
    let branch = json_literal(config.branch.as_str());
    render_put_body(
        message.as_str(),
        content_q.as_str(),
        sha_q.as_str(),
        name.as_str(),
        email.as_str(),
        branch.as_str(),
    )
}

/// A conditional write, ready to be sent: `PUT url`, authorised by `token`.
#[derive(Clone, Debug)]
pub struct PutRequest {
    pub url: String,
    pub token: String,
    pub body: String,
}

/// Prepares the write of `content` over the revision `sha` that was read
/// just before. Without a token nothing is prepared, so nothing is sent.
pub fn prepare_push(config: &SyncConfig, token: Option<String>, content: &str, sha: &str) -> (r:
    Result<PutRequest, SyncError>)
    ensures
        token is None ==> r == Err::<PutRequest, SyncError>(SyncError::MissingToken),
        token is Some ==> r is Ok,
        r matches Ok(req) ==> token == Some(req.token) && req.url@ == contents_url_of(*config)
            && req.body@ == put_body_of(*config, content@, sha@),
{
    let token = match token {
        Some(t) => t,
        None => {
            return Err(SyncError::MissingToken);
        },
    };
    let body = put_request_body(config, content, sha);
    Ok(PutRequest { url: contents_url(config), token, body })
}

/// The write succeeded only on status 200; any other answer, a conflict
/// with a newer revision included, is a failure that carries the status and
/// the body as they came.
pub fn check_put_response(status: u16, body: String) -> (r: Result<(), SyncError>)
    ensures
        r is Ok <==> status == 200,
        status != 200 ==> r == Err::<(), SyncError>(SyncError::Rejected { status, body }),
{
    if status == 200 {
        Ok(())
    } else {
        Err(SyncError::Rejected { status, body })
    }
}

} // verus!
