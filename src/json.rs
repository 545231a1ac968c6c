//! Decoding of forge records from JSON values. Each record names its
//! required fields, which must be present with the right type, and its
//! optional ones, which fall back to a default.
use vstd::prelude::*;
use vstd::string::StringExecFns;
use crate::error::AppError;
use crate::model::{Commit, CommitAuthor, CommitFile, CommitSummary, Issue, Owner, Repo};

verus! {

/// A JSON value as the records read it. Numbers with a fractional part or
/// exponent are kept only as such; integers keep their value.
#[derive(Debug)]
pub enum Json {
    Null,
    Bool(bool),
    Int(i128),
    Fractional,
    Str(String),
    Array(Vec<Json>),
    /// Members in document order, each key once.
    Object(Vec<(String, Json)>),
}

/// The value of the first member named `key`.
pub open spec fn lookup(members: Seq<(String, Json)>, key: Seq<char>) -> Option<Json>
    decreases members.len(),
{
    if members.len() == 0 {
        None
    } else if members[0].0@ == key {
        Some(members[0].1)
    } else {
        lookup(members.drop_first(), key)
    }
}

/// The member `key` of an object; nothing for other values.
pub open spec fn field(v: Json, key: Seq<char>) -> Option<Json> {
    match v {
        Json::Object(members) => lookup(members@, key),
        _ => None,
    }
}

/// A string value.
pub open spec fn str_of(j: Option<Json>) -> Option<Seq<char>> {
    match j {
        Some(Json::Str(s)) => Some(s@),
        _ => None,
    }
}

/// An integer value within the range of `i64`.
pub open spec fn i64_of(j: Option<Json>) -> Option<i64> {
    match j {
        Some(Json::Int(n)) => if i64::MIN <= n <= i64::MAX {
            Some(n as i64)
        } else {
            None
        },
        _ => None,
    }
}

/// An integer value within the range of `u64`.
pub open spec fn u64_of(j: Option<Json>) -> Option<u64> {
    match j {
        Some(Json::Int(n)) => if 0 <= n <= u64::MAX {
            Some(n as u64)
        } else {
            None
        },
        _ => None,
    }
}

/// A boolean value.
pub open spec fn bool_of(j: Option<Json>) -> Option<bool> {
    match j {
        Some(Json::Bool(b)) => Some(b),
        _ => None,
    }
}

/// The member `key` of `v`, when `v` is an object that has it.
pub fn get_field<'a>(v: &'a Json, key: &str) -> (r: Option<&'a Json>)
    ensures
        match r {
            Some(j) => field(*v, key@) == Some(*j),
            None => field(*v, key@) is None,
        },
{
    match v {
        Json::Object(members) => {
            let wanted = String::from_str(key);
            let mut i: usize = 0;
            assert(members@.skip(0) =~= members@);
            while i < members.len()
                invariant
                    i <= members@.len(),
                    wanted@ == key@,
                    field(*v, key@) == lookup(members@, key@),
                    lookup(members@, key@) == lookup(members@.skip(i as int), key@),
                decreases members@.len() - i,
            {
                let ghost rest = members@.skip(i as int);
                assert(rest[0] == members@[i as int]);
                if members[i].0 == wanted {
                    assert(rest.len() > 0 && rest[0].0@ == key@);
                    assert(lookup(rest, key@) == Some(rest[0].1));
                    return Some(&members[i].1);
                }
                assert(rest.drop_first() =~= members@.skip(i + 1));
                i = i + 1;
            }
            None
        },
        _ => None,
    }
}

fn text_error(prefix: &str, key: &str, suffix: &str) -> (e: AppError)
    ensures
        e is Serialization,
{
    let mut s = String::from_str(prefix);
    s.append(key);
    s.append(suffix);
    AppError::Serialization(s)
}

/// The error for a value that is not an object.
fn not_object(context: &str) -> (e: AppError)
    ensures
        e is Serialization,
{
    text_error("", context, " expected to be a JSON object")
}

/// A required string member.
pub fn required_string(v: &Json, key: &str) -> (r: Result<String, AppError>)
    ensures
        match r {
            Ok(s) => str_of(field(*v, key@)) == Some(s@),
            Err(e) => str_of(field(*v, key@)) is None && e is Serialization,
        },
{
    match get_field(v, key) {
        Some(Json::Str(s)) => Ok(s.clone()),
        Some(_) => Err(text_error("`", key, "` must be a string")),
        None => Err(text_error("missing `", key, "` field")),
    }
}

/// A required integer member within the range of `i64`.
pub fn required_i64(v: &Json, key: &str) -> (r: Result<i64, AppError>)
    ensures
        match r {
            Ok(n) => i64_of(field(*v, key@)) == Some(n),
            Err(e) => i64_of(field(*v, key@)) is None && e is Serialization,
        },
{
    match get_field(v, key) {
        Some(Json::Int(n)) => {
            if i64::MIN as i128 <= *n && *n <= i64::MAX as i128 {
                Ok(*n as i64)
            } else {
                Err(text_error("`", key, "` must be a 64-bit integer"))
            }
        },
        Some(_) => Err(text_error("`", key, "` must be a 64-bit integer")),
        None => Err(text_error("missing `", key, "` field")),
    }
}

/// A required boolean member.
pub fn required_bool(v: &Json, key: &str) -> (r: Result<bool, AppError>)
    ensures
        match r {
            Ok(b) => bool_of(field(*v, key@)) == Some(b),
            Err(e) => bool_of(field(*v, key@)) is None && e is Serialization,
        },
{
    match get_field(v, key) {
        Some(Json::Bool(b)) => Ok(*b),
        Some(_) => Err(text_error("`", key, "` must be a boolean")),
        None => Err(text_error("missing `", key, "` field")),
    }
}

/// An optional string member: nothing when it is missing or not a string.
pub fn optional_string(v: &Json, key: &str) -> (r: Option<String>)
    ensures
        match r {
            Some(s) => str_of(field(*v, key@)) == Some(s@),
            None => str_of(field(*v, key@)) is None,
        },
{
    match get_field(v, key) {
        Some(Json::Str(s)) => Some(s.clone()),
        _ => None,
    }
}

/// An optional unsigned member, zero when it is missing or out of range.
pub fn optional_u64(v: &Json, key: &str) -> (r: u64)
    ensures
        r == match u64_of(field(*v, key@)) {
            Some(n) => n,
            None => 0,
        },
{
    match get_field(v, key) {
        Some(Json::Int(n)) => {
            if 0 <= *n && *n <= u64::MAX as i128 {
                *n as u64
            } else {
                0
            }
        },
        _ => 0,
    }
}

/// An optional signed member, zero when it is missing or out of range.
pub fn optional_i64(v: &Json, key: &str) -> (r: i64)
    ensures
        r == match i64_of(field(*v, key@)) {
            Some(n) => n,
            None => 0,
        },
{
    match get_field(v, key) {
        Some(Json::Int(n)) => {
            if i64::MIN as i128 <= *n && *n <= i64::MAX as i128 {
                *n as i64
            } else {
                0
            }
        },
        _ => 0,
    }
}

/// An optional boolean member.
pub fn optional_bool(v: &Json, key: &str) -> (r: Option<bool>)
    ensures
        r == bool_of(field(*v, key@)),
{
    match get_field(v, key) {
        Some(Json::Bool(b)) => Some(*b),
        _ => None,
    }
}

/// An optional string as its characters.
pub open spec fn opt_view(o: Option<String>) -> Option<Seq<char>> {
    match o {
        Some(s) => Some(s@),
        None => None,
    }
}

pub open spec fn i64_or_zero(j: Option<Json>) -> i64 {
    match i64_of(j) {
        Some(n) => n,
        None => 0,
    }
}

pub open spec fn u64_or_zero(j: Option<Json>) -> u64 {
    match u64_of(j) {
        Some(n) => n,
        None => 0,
    }
}

pub open spec fn str_or_empty(j: Option<Json>) -> Seq<char> {
    match str_of(j) {
        Some(s) => s,
        None => Seq::empty(),
    }
}

/// An optional nested record: absent, null, or an object.
pub open spec fn nested_ok(j: Option<Json>) -> bool {
    match j {
        None => true,
        Some(Json::Null) => true,
        Some(x) => x is Object,
    }
}

pub open spec fn owner_decodes(v: Json) -> bool {
    &&& v is Object
    &&& str_of(field(v, "login"@)) is Some
    &&& i64_of(field(v, "id"@)) is Some
    &&& str_of(field(v, "html_url"@)) is Some
    &&& bool_of(field(v, "site_admin"@)) is Some
}

pub open spec fn owner_from(v: Json, o: Owner) -> bool {
    &&& str_of(field(v, "login"@)) == Some(o.login@)
    &&& i64_of(field(v, "id"@)) == Some(o.id)
    &&& str_of(field(v, "html_url"@)) == Some(o.html_url@)
    &&& bool_of(field(v, "site_admin"@)) == Some(o.site_admin)
}

pub open spec fn author_from(v: Json, a: CommitAuthor) -> bool {
    &&& opt_view(a.name) == str_of(field(v, "name"@))
    &&& opt_view(a.email) == str_of(field(v, "email"@))
    &&& opt_view(a.date) == str_of(field(v, "date"@))
}

/// An optional author or committer: none when absent or null.
pub open spec fn nested_author_from(j: Option<Json>, a: Option<CommitAuthor>) -> bool {
    match j {
        None => a is None,
        Some(Json::Null) => a is None,
        Some(x) => a is Some && author_from(x, a->0),
    }
}

pub open spec fn summary_decodes(v: Json) -> bool {
    &&& v is Object
    &&& str_of(field(v, "message"@)) is Some
    &&& nested_ok(field(v, "author"@))
    &&& nested_ok(field(v, "committer"@))
}

pub open spec fn summary_from(v: Json, s: CommitSummary) -> bool {
    &&& str_of(field(v, "message"@)) == Some(s.message@)
    &&& nested_author_from(field(v, "author"@), s.author)
    &&& nested_author_from(field(v, "committer"@), s.committer)
}

pub open spec fn file_decodes(v: Json) -> bool {
    v is Object && str_of(field(v, "filename"@)) is Some
}

/// Line counts default to zero, the status to empty.
pub open spec fn file_from(v: Json, f: CommitFile) -> bool {
    &&& str_of(field(v, "filename"@)) == Some(f.filename@)
    &&& f.additions == i64_or_zero(field(v, "additions"@))
    &&& f.deletions == i64_or_zero(field(v, "deletions"@))
    &&& f.changes == i64_or_zero(field(v, "changes"@))
    &&& f.status@ == str_or_empty(field(v, "status"@))
}

/// A `files` member that is an array must hold decodable file records;
/// anything else stands for no files.
pub open spec fn files_ok(j: Option<Json>) -> bool {
    match j {
        Some(Json::Array(items)) => forall|k: int|
            0 <= k < items@.len() ==> file_decodes(#[trigger] items@[k]),
        _ => true,
    }
}

pub open spec fn files_from(j: Option<Json>, files: Seq<CommitFile>) -> bool {
    match j {
        Some(Json::Array(items)) => files.len() == items@.len() && forall|k: int|
            0 <= k < items@.len() ==> file_from(#[trigger] items@[k], files[k]),
        _ => files.len() == 0,
    }
}

pub open spec fn commit_decodes(v: Json) -> bool {
    &&& v is Object
    &&& str_of(field(v, "sha"@)) is Some
    &&& field(v, "commit"@) is Some
    &&& summary_decodes(field(v, "commit"@)->0)
    &&& files_ok(field(v, "files"@))
}

pub open spec fn commit_from(v: Json, c: Commit) -> bool {
    &&& str_of(field(v, "sha"@)) == Some(c.sha@)
    &&& c.url@ == str_or_empty(field(v, "url"@))
    &&& opt_view(c.html_url) == str_of(field(v, "html_url"@))
    &&& summary_from(field(v, "commit"@)->0, c.commit)
    &&& files_from(field(v, "files"@), c.files@)
}

pub open spec fn issue_decodes(v: Json) -> bool {
    &&& v is Object
    &&& i64_of(field(v, "id"@)) is Some
    &&& i64_of(field(v, "number"@)) is Some
    &&& str_of(field(v, "title"@)) is Some
    &&& str_of(field(v, "state"@)) is Some
    &&& str_of(field(v, "created_at"@)) is Some
    &&& str_of(field(v, "updated_at"@)) is Some
}

pub open spec fn issue_from(v: Json, i: Issue) -> bool {
    &&& i64_of(field(v, "id"@)) == Some(i.id)
    &&& i64_of(field(v, "number"@)) == Some(i.number)
    &&& str_of(field(v, "title"@)) == Some(i.title@)
    &&& opt_view(i.body) == str_of(field(v, "body"@))
    &&& str_of(field(v, "state"@)) == Some(i.state@)
    &&& opt_view(i.html_url) == str_of(field(v, "html_url"@))
    &&& str_of(field(v, "created_at"@)) == Some(i.created_at@)
    &&& str_of(field(v, "updated_at"@)) == Some(i.updated_at@)
}

pub open spec fn repo_decodes(v: Json) -> bool {
    &&& v is Object
    &&& i64_of(field(v, "id"@)) is Some
    &&& str_of(field(v, "name"@)) is Some
    &&& str_of(field(v, "full_name"@)) is Some
    &&& str_of(field(v, "html_url"@)) is Some
    &&& field(v, "owner"@) is Some
    &&& owner_decodes(field(v, "owner"@)->0)
}

/// Counters default to zero and `has_issues` to true; the derived fields
/// start empty.
pub open spec fn repo_from(v: Json, r: Repo) -> bool {
    &&& i64_of(field(v, "id"@)) == Some(r.id)
    &&& str_of(field(v, "name"@)) == Some(r.name@)
    &&& str_of(field(v, "full_name"@)) == Some(r.full_name@)
    &&& str_of(field(v, "html_url"@)) == Some(r.html_url@)
    &&& r.forks_count == u64_or_zero(field(v, "forks_count"@))
    &&& r.stargazers_count == u64_or_zero(field(v, "stargazers_count"@))
    &&& r.open_issues_count == u64_or_zero(field(v, "open_issues_count"@))
    &&& r.has_issues == match bool_of(field(v, "has_issues"@)) {
        Some(b) => b,
        None => true,
    }
    &&& opt_view(r.language) == str_of(field(v, "language"@))
    &&& owner_from(field(v, "owner"@)->0, r.owner)
    &&& opt_view(r.created_at) == str_of(field(v, "created_at"@))
    &&& r.forks@.len() == 0
    &&& r.recent_commits@.len() == 0
    &&& r.issues@.len() == 0
    &&& r.commit_count == 0
}

fn is_object(v: &Json) -> (r: bool)
    ensures
        r == (*v is Object),
{
    match v {
        Json::Object(_) => true,
        _ => false,
    }
}

fn optional_author(v: &Json, key: &str) -> (r: Result<Option<CommitAuthor>, AppError>)
    ensures
        r is Ok <==> nested_ok(field(*v, key@)),
        r matches Ok(a) ==> nested_author_from(field(*v, key@), a),
        r matches Err(e) ==> e is Serialization,
{
    match get_field(v, key) {
        None => Ok(None),
        Some(Json::Null) => Ok(None),
        Some(x) => match CommitAuthor::from_json(x) {
            Ok(a) => Ok(Some(a)),
            Err(e) => Err(e),
        },
    }
}

impl Owner {
    /// Decodes an owner; every field is required.
    pub fn from_json(value: &Json) -> (r: Result<Owner, AppError>)
        ensures
            r is Ok <==> owner_decodes(*value),
            r matches Ok(o) ==> owner_from(*value, o),
            r matches Err(e) ==> e is Serialization,
    {
        if !is_object(value) {
            return Err(not_object("owner"));
        }
        let login = required_string(value, "login")?;
        let id = required_i64(value, "id")?;
        let html_url = required_string(value, "html_url")?;
        let site_admin = required_bool(value, "site_admin")?;
        Ok(Owner { login, id, html_url, site_admin })
    }
}

impl CommitAuthor {
    /// Decodes the author or committer of a commit; every field is
    /// optional, but the value must be an object.
    pub fn from_json(value: &Json) -> (r: Result<CommitAuthor, AppError>)
        ensures
            r is Ok <==> *value is Object,
            r matches Ok(a) ==> author_from(*value, a),
            r matches Err(e) ==> e is Serialization,
    {
        if !is_object(value) {
            return Err(not_object("commit author"));
        }
        Ok(
            CommitAuthor {
                name: optional_string(value, "name"),
                email: optional_string(value, "email"),
                date: optional_string(value, "date"),
            },
        )
    }
}

impl CommitSummary {
    /// Decodes a commit's message and people; the message is required.
    pub fn from_json(value: &Json) -> (r: Result<CommitSummary, AppError>)
        ensures
            r is Ok <==> summary_decodes(*value),
            r matches Ok(s) ==> summary_from(*value, s),
            r matches Err(e) ==> e is Serialization,
    {
        if !is_object(value) {
            return Err(not_object("commit summary"));
        }
        let message = required_string(value, "message")?;
        let author = optional_author(value, "author")?;
        let committer = optional_author(value, "committer")?;
        Ok(CommitSummary { message, author, committer })
    }
}

impl CommitFile {
    /// Decodes one changed file; only the file name is required.
    pub fn from_json(value: &Json) -> (r: Result<CommitFile, AppError>)
        ensures
            r is Ok <==> file_decodes(*value),
            r matches Ok(f) ==> file_from(*value, f),
            r matches Err(e) ==> e is Serialization,
    {
        if !is_object(value) {
            return Err(not_object("commit file"));
        }
        let filename = required_string(value, "filename")?;
        let status = match optional_string(value, "status") {
            Some(s) => s,
            None => String::new(),
        };
        Ok(
            CommitFile {
                filename,
                additions: optional_i64(value, "additions"),
                deletions: optional_i64(value, "deletions"),
                changes: optional_i64(value, "changes"),
                status,
            },
        )
    }
}

fn decode_files(items: &Vec<Json>) -> (r: Result<Vec<CommitFile>, AppError>)
    ensures
        r is Ok <==> forall|k: int| 0 <= k < items@.len() ==> file_decodes(#[trigger] items@[k]),
        r matches Ok(files) ==> files@.len() == items@.len() && forall|k: int|
            0 <= k < items@.len() ==> file_from(#[trigger] items@[k], files@[k]),
        r matches Err(e) ==> e is Serialization,
{
    let mut files: Vec<CommitFile> = Vec::new();
    let mut i: usize = 0;
    while i < items.len()
        invariant
            i <= items@.len(),
            files@.len() == i,
            forall|k: int| 0 <= k < i ==> file_decodes(#[trigger] items@[k]),
            forall|k: int| 0 <= k < i ==> file_from(#[trigger] items@[k], files@[k]),
        decreases items@.len() - i,
    {
        match CommitFile::from_json(&items[i]) {
            Ok(f) => files.push(f),
            Err(e) => return Err(e),
        }
        i = i + 1;
    }
    Ok(files)
}

impl Commit {
    /// Decodes a commit. Its identifier and summary are required; a `files`
    /// member that is not an array stands for no files.
    pub fn from_json(value: &Json) -> (r: Result<Commit, AppError>)
        ensures
            r is Ok <==> commit_decodes(*value),
            r matches Ok(c) ==> commit_from(*value, c),
            r matches Err(e) ==> e is Serialization,
    {
        if !is_object(value) {
            return Err(not_object("commit"));
        }
        let sha = required_string(value, "sha")?;
        let url = match optional_string(value, "url") {
            Some(s) => s,
            None => String::new(),
        };
        let html_url = optional_string(value, "html_url");
        let commit = match get_field(value, "commit") {
            Some(summary) => CommitSummary::from_json(summary)?,
            None => return Err(text_error("missing `", "commit", "` field")),
        };
        let files = match get_field(value, "files") {
            Some(Json::Array(items)) => decode_files(items)?,
            _ => Vec::new(),
        };
        Ok(Commit { sha, url, html_url, commit, files })
    }
}

impl Issue {
    /// Decodes an open issue; its body and address are optional.
    pub fn from_json(value: &Json) -> (r: Result<Issue, AppError>)
        ensures
            r is Ok <==> issue_decodes(*value),
            r matches Ok(i) ==> issue_from(*value, i),
            r matches Err(e) ==> e is Serialization,
    {
        if !is_object(value) {
            return Err(not_object("issue"));
        }
        let id = required_i64(value, "id")?;
        let number = required_i64(value, "number")?;
        let title = required_string(value, "title")?;
        let body = optional_string(value, "body");
        let state = required_string(value, "state")?;
        let html_url = optional_string(value, "html_url");
        let created_at = required_string(value, "created_at")?;
        let updated_at = required_string(value, "updated_at")?;
        Ok(Issue { id, number, title, body, state, html_url, created_at, updated_at })
    }
}

impl Repo {
    /// Decodes a repository from a search or fork-listing hit, with empty
    /// derived fields.
    pub fn from_json(value: &Json) -> (r: Result<Repo, AppError>)
        ensures
            r is Ok <==> repo_decodes(*value),
            r matches Ok(repo) ==> repo_from(*value, repo),
            r matches Err(e) ==> e is Serialization,
    {
        if !is_object(value) {
            return Err(not_object("repository"));
        }
        let id = required_i64(value, "id")?;
        let name = required_string(value, "name")?;
        let full_name = required_string(value, "full_name")?;
        let html_url = required_string(value, "html_url")?;
        let owner = match get_field(value, "owner") {
            Some(o) => Owner::from_json(o)?,
            None => return Err(text_error("missing `", "owner", "` field")),
        };
        let has_issues = match optional_bool(value, "has_issues") {
            Some(b) => b,
            None => true,
        };
        Ok(
            Repo {
                id,
                name,
                full_name,
                html_url,
                forks_count: optional_u64(value, "forks_count"),
                stargazers_count: optional_u64(value, "stargazers_count"),
                open_issues_count: optional_u64(value, "open_issues_count"),
                has_issues,
                language: optional_string(value, "language"),
                owner,
                created_at: optional_string(value, "created_at"),
                forks: Vec::new(),
                recent_commits: Vec::new(),
                issues: Vec::new(),
                commit_count: 0,
            },
        )
    }
}

/// The items of a list response: the value itself when it is an array.
pub open spec fn list_items(root: Json) -> Option<Seq<Json>> {
    match root {
        Json::Array(items) => Some(items@),
        _ => None,
    }
}

/// The items of a search response: its `items` member when that is an
/// array.
pub open spec fn search_items(root: Json) -> Option<Seq<Json>> {
    match field(root, "items"@) {
        Some(Json::Array(items)) => Some(items@),
        _ => None,
    }
}

pub open spec fn repos_decode(items: Seq<Json>) -> bool {
    forall|k: int| 0 <= k < items.len() ==> repo_decodes(#[trigger] items[k])
}

pub open spec fn repos_from(items: Seq<Json>, repos: Seq<Repo>) -> bool {
    repos.len() == items.len() && forall|k: int|
        0 <= k < items.len() ==> repo_from(#[trigger] items[k], repos[k])
}

pub open spec fn commits_decode(items: Seq<Json>) -> bool {
    forall|k: int| 0 <= k < items.len() ==> commit_decodes(#[trigger] items[k])
}

pub open spec fn commits_from(items: Seq<Json>, commits: Seq<Commit>) -> bool {
    commits.len() == items.len() && forall|k: int|
        0 <= k < items.len() ==> commit_from(#[trigger] items[k], commits[k])
}

pub open spec fn issues_decode(items: Seq<Json>) -> bool {
    forall|k: int| 0 <= k < items.len() ==> issue_decodes(#[trigger] items[k])
}

pub open spec fn issues_from(items: Seq<Json>, issues: Seq<Issue>) -> bool {
    issues.len() == items.len() && forall|k: int|
        0 <= k < items.len() ==> issue_from(#[trigger] items[k], issues[k])
}

fn decode_repos(items: &Vec<Json>) -> (r: Result<Vec<Repo>, AppError>)
    ensures
        r is Ok <==> repos_decode(items@),
        r matches Ok(repos) ==> repos_from(items@, repos@),
        r matches Err(e) ==> e is Serialization,
{
    let mut repos: Vec<Repo> = Vec::new();
    let mut i: usize = 0;
    while i < items.len()
        invariant
            i <= items@.len(),
            repos@.len() == i,
            forall|k: int| 0 <= k < i ==> repo_decodes(#[trigger] items@[k]),
            forall|k: int| 0 <= k < i ==> repo_from(#[trigger] items@[k], repos@[k]),
        decreases items@.len() - i,
    {
        match Repo::from_json(&items[i]) {
            Ok(repo) => repos.push(repo),
            Err(e) => return Err(e),
        }
        i = i + 1;
    }
    Ok(repos)
}

/// Decodes a search response: the repositories of its `items` array.
pub fn decode_search(root: &Json) -> (r: Result<Vec<Repo>, AppError>)
    ensures
        r is Ok <==> (search_items(*root) is Some && repos_decode(search_items(*root)->0)),
        r matches Ok(repos) ==> repos_from(search_items(*root)->0, repos@),
        r matches Err(e) ==> e is Serialization,
{
    match get_field(root, "items") {
        Some(Json::Array(items)) => decode_repos(items),
        _ => Err(text_error("search response missing `", "items", "` array")),
    }
}

/// Decodes a list of repositories, such as the forks of one.
pub fn decode_repo_list(root: &Json) -> (r: Result<Vec<Repo>, AppError>)
    ensures
        r is Ok <==> (list_items(*root) is Some && repos_decode(list_items(*root)->0)),
        r matches Ok(repos) ==> repos_from(list_items(*root)->0, repos@),
        r matches Err(e) ==> e is Serialization,
{
    match root {
        Json::Array(items) => decode_repos(items),
        _ => Err(not_object("repository list")),
    }
}

/// Decodes a list of commits.
pub fn decode_commit_list(root: &Json) -> (r: Result<Vec<Commit>, AppError>)
    ensures
        r is Ok <==> (list_items(*root) is Some && commits_decode(list_items(*root)->0)),
        r matches Ok(commits) ==> commits_from(list_items(*root)->0, commits@),
        r matches Err(e) ==> e is Serialization,
{
    match root {
        Json::Array(items) => {
            let mut commits: Vec<Commit> = Vec::new();
            let mut i: usize = 0;
            while i < items.len()
                invariant
                    i <= items@.len(),
                    commits@.len() == i,
                    list_items(*root) == Some(items@),
                    forall|k: int| 0 <= k < i ==> commit_decodes(#[trigger] items@[k]),
                    forall|k: int| 0 <= k < i ==> commit_from(#[trigger] items@[k], commits@[k]),
                decreases items@.len() - i,
            {
                match Commit::from_json(&items[i]) {
                    Ok(c) => commits.push(c),
                    Err(e) => return Err(e),
                }
                i = i + 1;
            }
            Ok(commits)
        },
        _ => Err(not_object("commit list")),
    }
}

/// Decodes a list of issues.
pub fn decode_issue_list(root: &Json) -> (r: Result<Vec<Issue>, AppError>)
    ensures
        r is Ok <==> (list_items(*root) is Some && issues_decode(list_items(*root)->0)),
        r matches Ok(issues) ==> issues_from(list_items(*root)->0, issues@),
        r matches Err(e) ==> e is Serialization,
{
    match root {
        Json::Array(items) => {
            let mut issues: Vec<Issue> = Vec::new();
            let mut i: usize = 0;
            while i < items.len()
                invariant
                    i <= items@.len(),
                    issues@.len() == i,
                    list_items(*root) == Some(items@),
                    forall|k: int| 0 <= k < i ==> issue_decodes(#[trigger] items@[k]),
                    forall|k: int| 0 <= k < i ==> issue_from(#[trigger] items@[k], issues@[k]),
                decreases items@.len() - i,
            {
                match Issue::from_json(&items[i]) {
                    Ok(issue) => issues.push(issue),
                    Err(e) => return Err(e),
                }
                i = i + 1;
            }
            Ok(issues)
        },
        _ => Err(not_object("issue list")),
    }
}

} // verus!
