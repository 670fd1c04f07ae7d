//! The GitHub side of a webhook delivery: the request headers the endpoint
//! reads, and the shape of a push-event payload.
//!
//! A request reaches the library as plain values: its path and a list of
//! header fields in the order the transport presented them, names lowercase.
//! A header whose bytes are not readable text carries `None`.

use vstd::prelude::*;
use crate::json::{
    view_json, view_json_seq, view_member_seq, lemma_view_json_seq_index,
    lemma_view_json_seq_len, lemma_view_member_seq_index, lemma_view_member_seq_len, copy_range,
    clone_json, Json, JsonValue, Member,
};

verus! {

/// One header of the request, name lowercase, value `None` when its bytes
/// were not readable text.
pub struct HeaderField {
    pub name: String,
    pub value: Option<String>,
}

/// The read parts of a request: its path and its headers, in order.
pub struct RequestParts {
    pub path: String,
    pub headers: Vec<HeaderField>,
}

/// The first header named `name`, looking from position `k` on.
pub open spec fn spec_find_header_from(hs: Seq<HeaderField>, name: Seq<char>, k: int) -> Option<
    HeaderField,
>
    decreases hs.len() - k,
{
    if k < 0 || k >= hs.len() {
        None
    } else if hs[k].name@ == name {
        Some(hs[k])
    } else {
        spec_find_header_from(hs, name, k + 1)
    }
}

/// The text of the first header named `name`; the empty text when the header
/// is absent or unreadable.
pub open spec fn spec_header_or_empty(hs: Seq<HeaderField>, name: Seq<char>) -> Seq<char> {
    match spec_find_header_from(hs, name, 0) {
        Some(h) => match h.value {
            Some(v) => v@,
            None => Seq::empty(),
        },
        None => Seq::empty(),
    }
}

/// The text of the first header named `name`, or `None` when the header is
/// absent or unreadable.
pub open spec fn spec_header_opt(hs: Seq<HeaderField>, name: Seq<char>) -> Option<Seq<char>> {
    match spec_find_header_from(hs, name, 0) {
        Some(h) => match h.value {
            Some(v) => Some(v@),
            None => None,
        },
        None => None,
    }
}

fn find_header<'a>(headers: &'a Vec<HeaderField>, name: &String) -> (r: Option<&'a HeaderField>)
    ensures
        match r {
            Some(h) => spec_find_header_from(headers@, name@, 0) == Some(*h),
            None => spec_find_header_from(headers@, name@, 0) is None,
        },
{
    let mut k: usize = 0;
    while k < headers.len()
        invariant
            k <= headers@.len(),
            spec_find_header_from(headers@, name@, 0) == spec_find_header_from(
                headers@,
                name@,
                k as int,
            ),
        decreases headers@.len() - k,
    {
        let h = &headers[k];
        if h.name.eq(name) {
            return Some(h);
        }
        k = k + 1;
    }
    None
}

/// The text of the named header, or the empty string.
pub fn header_or_empty(headers: &Vec<HeaderField>, name: &String) -> (r: String)
    ensures
        r@ == spec_header_or_empty(headers@, name@),
{
    match find_header(headers, name) {
        Some(h) => match &h.value {
            Some(v) => v.clone(),
            None => String::new(),
        },
        None => String::new(),
    }
}

/// The text of the named header, or `None`.
pub fn header_opt(headers: &Vec<HeaderField>, name: &String) -> (r: Option<String>)
    ensures
        match r {
            Some(v) => spec_header_opt(headers@, name@) == Some(v@),
            None => spec_header_opt(headers@, name@) is None,
        },
{
    match find_header(headers, name) {
        Some(h) => match &h.value {
            Some(v) => Some(v.clone()),
            None => None,
        },
        None => None,
    }
}

/// The fixed set of headers GitHub sends with a delivery, each copied from
/// the request; a missing or unreadable one becomes the empty string, a
/// missing signature stays `None`.
#[derive(Debug)]
pub struct GithubHeader {
    /// The unique identifier of the webhook.
    pub x_github_hook_id: String,
    /// The name of the event that triggered the delivery.
    pub x_github_event: String,
    /// A globally unique identifier for the delivery.
    pub x_github_delivery: String,
    /// HMAC digest of the body keyed with the configured secret (SHA-1).
    pub x_hub_signature: Option<String>,
    /// HMAC digest of the body keyed with the configured secret (SHA-256).
    pub x_hub_signature_256: Option<String>,
    /// The sender's user agent.
    pub user_agent: String,
    /// The type of resource where the webhook was created.
    pub x_github_hook_installation_target_type: String,
    /// The unique identifier of the resource where the webhook was created.
    pub x_github_hook_installation_target_id: String,
}

impl GithubHeader {
    /// Copy the GitHub headers out of the request's header list.
    pub fn from_request_parts(parts: &RequestParts) -> (r: GithubHeader)
        ensures
            r.x_github_hook_id@ == spec_header_or_empty(parts.headers@, "x-github-hook-id"@),
            r.x_github_event@ == spec_header_or_empty(parts.headers@, "x-github-event"@),
            r.x_github_delivery@ == spec_header_or_empty(parts.headers@, "x-github-delivery"@),
            match r.x_hub_signature {
                Some(v) => spec_header_opt(parts.headers@, "x-hub-signature"@) == Some(v@),
                None => spec_header_opt(parts.headers@, "x-hub-signature"@) is None,
            },
            match r.x_hub_signature_256 {
                Some(v) => spec_header_opt(parts.headers@, "x-hub-signature-256"@) == Some(v@),
                None => spec_header_opt(parts.headers@, "x-hub-signature-256"@) is None,
            },
            r.user_agent@ == spec_header_or_empty(parts.headers@, "user-agent"@),
            r.x_github_hook_installation_target_type@ == spec_header_or_empty(
                parts.headers@,
                "x-github-hook-installation-target-type"@,
            ),
            r.x_github_hook_installation_target_id@ == spec_header_or_empty(
                parts.headers@,
                "x-github-hook-installation-target-id"@,
            ),
    {
        GithubHeader {
            x_github_hook_id: header_or_empty(&parts.headers, &String::from_str("x-github-hook-id")),
            x_github_event: header_or_empty(&parts.headers, &String::from_str("x-github-event")),
            x_github_delivery: header_or_empty(
                &parts.headers,
                &String::from_str("x-github-delivery"),
            ),
            x_hub_signature: header_opt(&parts.headers, &String::from_str("x-hub-signature")),
            x_hub_signature_256: header_opt(
                &parts.headers,
                &String::from_str("x-hub-signature-256"),
            ),
            user_agent: header_or_empty(&parts.headers, &String::from_str("user-agent")),
            x_github_hook_installation_target_type: header_or_empty(
                &parts.headers,
                &String::from_str("x-github-hook-installation-target-type"),
            ),
            x_github_hook_installation_target_id: header_or_empty(
                &parts.headers,
                &String::from_str("x-github-hook-installation-target-id"),
            ),
        }
    }
}

/// The identity attached to a commit or a push: Git author, committer or
/// pusher metadata.
pub struct User {
    /// The timestamp, as the payload spells it.
    pub date: Vec<char>,
    /// The e-mail address, when one was given.
    pub email: Option<Vec<char>>,
    /// The git author's name.
    pub name: Vec<char>,
    /// The GitHub username.
    pub username: Vec<char>,
}

/// One commit record of a push payload.
pub struct Commits {
    /// Paths of files added by the commit.
    pub added: Vec<Vec<char>>,
    /// Git author information.
    pub author: User,
    /// Git committer information.
    pub committer: User,
    /// Whether this commit is distinct from any pushed before.
    pub distinct: bool,
    /// The commit id.
    pub id: Vec<char>,
    /// The commit message.
    pub message: Vec<char>,
    /// Paths of files modified by the commit, when given.
    pub modified: Option<Vec<Vec<char>>>,
    /// Paths of files removed by the commit, when given.
    pub removed: Option<Vec<Vec<char>>>,
    /// The timestamp of the commit, as the payload spells it.
    pub timestamp: Vec<char>,
    /// The id of the commit's tree.
    pub tree_id: Vec<char>,
    /// URL of the commit's API resource.
    pub url: Vec<char>,
}

/// A push-event payload: the fields the endpoint understands, plus the
/// opaque parts it passes through uninterpreted.
pub struct PushEvent {
    /// SHA of the most recent commit on the ref after the push.
    pub after: Vec<char>,
    /// The base ref, when one was given.
    pub base_ref: Option<Vec<char>>,
    /// SHA of the most recent commit on the ref before the push.
    pub before: Vec<char>,
    /// The pushed commits, in payload order.
    pub commits: Vec<Commits>,
    /// URL comparing the before and after commits, when given.
    pub compare: Option<Vec<char>>,
    /// Whether this push created the ref.
    pub created: bool,
    /// Whether this push deleted the ref.
    pub deleted: bool,
    /// Opaque enterprise object, kept uninterpreted.
    pub enterprise: Option<JsonValue>,
    /// Whether this push was a force push.
    pub forced: bool,
    /// The head commit.
    pub head_commit: Commits,
    /// Opaque installation object, kept uninterpreted.
    pub installation: Option<JsonValue>,
    /// Opaque organization object, kept uninterpreted.
    pub organization: Option<JsonValue>,
    /// Who pushed.
    pub pusher: User,
    /// The full git ref that was pushed.
    pub ref_: Vec<char>,
    /// Opaque repository object, kept uninterpreted.
    pub repository: Option<JsonValue>,
    /// Opaque sender object, kept uninterpreted.
    pub sender: Option<JsonValue>,
}

/// The first value under `key` in an object's members, looking from `k` on.
pub open spec fn spec_get_from(ms: Seq<(Seq<char>, Json)>, key: Seq<char>, k: int) -> Option<Json>
    decreases ms.len() - k,
{
    if k < 0 || k >= ms.len() {
        None
    } else if ms[k].0 == key {
        Some(ms[k].1)
    } else {
        spec_get_from(ms, key, k + 1)
    }
}

/// The first value under `key` in an object's members.
pub open spec fn spec_get(ms: Seq<(Seq<char>, Json)>, key: Seq<char>) -> Option<Json> {
    spec_get_from(ms, key, 0)
}

/// A field that must be present and hold a string.
pub open spec fn spec_req_str(o: Option<Json>) -> bool {
    o matches Some(Json::Str(_))
}

/// A field that must be present and hold a boolean.
pub open spec fn spec_req_bool(o: Option<Json>) -> bool {
    o matches Some(Json::Bool(_))
}

/// A field that may be absent or null, and otherwise holds a string.
pub open spec fn spec_opt_str(o: Option<Json>) -> bool {
    match o {
        None => true,
        Some(j) => j matches Json::Null || j matches Json::Str(_),
    }
}

/// The text of a string field.
pub open spec fn spec_str_of(o: Option<Json>) -> Seq<char> {
    match o {
        Some(Json::Str(t)) => t,
        _ => Seq::empty(),
    }
}

/// The value of a boolean field.
pub open spec fn spec_bool_of(o: Option<Json>) -> bool {
    match o {
        Some(Json::Bool(b)) => b,
        _ => false,
    }
}

/// The text of an optional string field, `None` when absent or null.
pub open spec fn spec_opt_str_of(o: Option<Json>) -> Option<Seq<char>> {
    match o {
        Some(Json::Str(t)) => Some(t),
        _ => None,
    }
}

/// An array holding only strings.
pub open spec fn spec_str_array(j: Json) -> bool {
    match j {
        Json::Arr(items) => forall|k: int|
            0 <= k < items.len() ==> ((#[trigger] items[k]) matches Json::Str(_)),
        _ => false,
    }
}

/// The texts of an array of strings, in order.
pub open spec fn spec_str_seq_of(j: Json) -> Seq<Seq<char>> {
    match j {
        Json::Arr(items) => Seq::new(
            items.len(),
            |k: int|
                match items[k] {
                    Json::Str(t) => t,
                    _ => Seq::empty(),
                },
        ),
        _ => Seq::empty(),
    }
}

/// A field that may be absent or null, and otherwise holds an array of
/// strings.
pub open spec fn spec_opt_str_array(o: Option<Json>) -> bool {
    match o {
        None => true,
        Some(j) => j matches Json::Null || spec_str_array(j),
    }
}

/// The view of an optional text.
pub open spec fn opt_chars_view(o: Option<Vec<char>>) -> Option<Seq<char>> {
    match o {
        Some(v) => Some(v@),
        None => None,
    }
}

/// The view of an optional list of texts.
pub open spec fn opt_list_view(o: Option<Vec<Vec<char>>>) -> Option<Seq<Seq<char>>> {
    match o {
        Some(v) => Some(v.deep_view()),
        None => None,
    }
}

/// The view of an optional opaque value.
pub open spec fn opt_json_view(o: Option<JsonValue>) -> Option<Json> {
    match o {
        Some(v) => Some(view_json(v)),
        None => None,
    }
}

/// The texts of an optional array-of-strings field, `None` when absent or
/// null.
pub open spec fn spec_opt_str_seq_of(o: Option<Json>) -> Option<Seq<Seq<char>>> {
    match o {
        Some(j) => if j matches Json::Arr(_) {
            Some(spec_str_seq_of(j))
        } else {
            None
        },
        None => None,
    }
}

/// A payload value with the shape of an identity record.
pub open spec fn spec_user_shape(j: Json) -> bool {
    match j {
        Json::Obj(ms) => spec_req_str(spec_get(ms, "date"@)) && spec_opt_str(
            spec_get(ms, "email"@),
        ) && spec_req_str(spec_get(ms, "name"@)) && spec_req_str(spec_get(ms, "username"@)),
        _ => false,
    }
}

/// The identity record `u` holds exactly the fields of `j`.
pub open spec fn spec_user_matches(u: User, j: Json) -> bool {
    match j {
        Json::Obj(ms) => u.date@ == spec_str_of(spec_get(ms, "date"@)) && opt_chars_view(u.email)
            == spec_opt_str_of(spec_get(ms, "email"@)) && u.name@ == spec_str_of(
            spec_get(ms, "name"@),
        ) && u.username@ == spec_str_of(spec_get(ms, "username"@)),
        _ => false,
    }
}

/// A payload value with the shape of a commit record.
pub open spec fn spec_commit_shape(j: Json) -> bool {
    match j {
        Json::Obj(ms) => (match spec_get(ms, "added"@) {
            Some(a) => spec_str_array(a),
            None => false,
        }) && (match spec_get(ms, "author"@) {
            Some(a) => spec_user_shape(a),
            None => false,
        }) && (match spec_get(ms, "committer"@) {
            Some(c) => spec_user_shape(c),
            None => false,
        }) && spec_req_bool(spec_get(ms, "distinct"@)) && spec_req_str(spec_get(ms, "id"@))
            && spec_req_str(spec_get(ms, "message"@)) && spec_opt_str_array(
            spec_get(ms, "modified"@),
        ) && spec_opt_str_array(spec_get(ms, "removed"@)) && spec_req_str(
            spec_get(ms, "timestamp"@),
        ) && spec_req_str(spec_get(ms, "tree_id"@)) && spec_req_str(spec_get(ms, "url"@)),
        _ => false,
    }
}

/// The commit record `c` holds exactly the fields of `j`.
pub open spec fn spec_commit_matches(c: Commits, j: Json) -> bool {
    match j {
        Json::Obj(ms) => c.added.deep_view() == spec_str_seq_of(
            spec_get(ms, "added"@).unwrap(),
        ) && spec_get(ms, "added"@) is Some && (match spec_get(ms, "author"@) {
            Some(a) => spec_user_matches(c.author, a),
            None => false,
        }) && (match spec_get(ms, "committer"@) {
            Some(a) => spec_user_matches(c.committer, a),
            None => false,
        }) && c.distinct == spec_bool_of(spec_get(ms, "distinct"@)) && c.id@ == spec_str_of(
            spec_get(ms, "id"@),
        ) && c.message@ == spec_str_of(spec_get(ms, "message"@)) && opt_list_view(c.modified)
            == spec_opt_str_seq_of(spec_get(ms, "modified"@)) && opt_list_view(c.removed)
            == spec_opt_str_seq_of(spec_get(ms, "removed"@)) && c.timestamp@ == spec_str_of(
            spec_get(ms, "timestamp"@),
        ) && c.tree_id@ == spec_str_of(spec_get(ms, "tree_id"@)) && c.url@ == spec_str_of(
            spec_get(ms, "url"@),
        ),
        _ => false,
    }
}

/// A payload value with the shape of a push event: all required fields
/// present with their required types, optional ones well-typed when present.
pub open spec fn spec_push_shape(j: Json) -> bool {
    match j {
        Json::Obj(ms) => spec_req_str(spec_get(ms, "after"@)) && spec_req_str(
            spec_get(ms, "before"@),
        ) && spec_req_str(spec_get(ms, "ref"@)) && spec_req_bool(spec_get(ms, "created"@))
            && spec_req_bool(spec_get(ms, "deleted"@)) && spec_req_bool(spec_get(ms, "forced"@))
            && (match spec_get(ms, "commits"@) {
            Some(Json::Arr(items)) => forall|k: int|
                0 <= k < items.len() ==> spec_commit_shape(#[trigger] items[k]),
            _ => false,
        }) && (match spec_get(ms, "head_commit"@) {
            Some(h) => spec_commit_shape(h),
            None => false,
        }) && (match spec_get(ms, "pusher"@) {
            Some(p) => spec_user_shape(p),
            None => false,
        }) && spec_opt_str(spec_get(ms, "base_ref"@)) && spec_opt_str(spec_get(ms, "compare"@)),
        _ => false,
    }
}

/// The push record `p` holds exactly the fields of `j`.
pub open spec fn spec_push_matches(p: PushEvent, j: Json) -> bool {
    match j {
        Json::Obj(ms) => p.after@ == spec_str_of(spec_get(ms, "after"@)) && opt_chars_view(
            p.base_ref,
        ) == spec_opt_str_of(spec_get(ms, "base_ref"@)) && p.before@ == spec_str_of(
            spec_get(ms, "before"@),
        ) && (match spec_get(ms, "commits"@) {
            Some(Json::Arr(items)) => p.commits@.len() == items.len() && forall|k: int|
                0 <= k < items.len() ==> spec_commit_matches(#[trigger] p.commits@[k], items[k]),
            _ => false,
        }) && opt_chars_view(p.compare) == spec_opt_str_of(spec_get(ms, "compare"@)) && p.created
            == spec_bool_of(spec_get(ms, "created"@)) && p.deleted == spec_bool_of(
            spec_get(ms, "deleted"@),
        ) && opt_json_view(p.enterprise) == spec_get(ms, "enterprise"@) && p.forced
            == spec_bool_of(spec_get(ms, "forced"@)) && (match spec_get(ms, "head_commit"@) {
            Some(h) => spec_commit_matches(p.head_commit, h),
            None => false,
        }) && opt_json_view(p.installation) == spec_get(ms, "installation"@) && opt_json_view(
            p.organization,
        ) == spec_get(ms, "organization"@) && (match spec_get(ms, "pusher"@) {
            Some(u) => spec_user_matches(p.pusher, u),
            None => false,
        }) && p.ref_@ == spec_str_of(spec_get(ms, "ref"@)) && opt_json_view(p.repository)
            == spec_get(ms, "repository"@) && opt_json_view(p.sender) == spec_get(ms, "sender"@),
        _ => false,
    }
}

/// Whether the texts `a` and `b` are the same characters.
pub fn chars_eq_str(a: &Vec<char>, b: &str) -> (r: bool)
    ensures
        r == (a@ == b@),
{
    let blen = b.unicode_len();
    if a.len() != blen {
        return false;
    }
    let mut k: usize = 0;
    while k < blen
        invariant
            k <= blen,
            a@.len() == blen,
            b@.len() == blen,
            forall|m: int| 0 <= m < k ==> a@[m] == b@[m],
        decreases blen - k,
    {
        if a[k] != b.get_char(k) {
            return false;
        }
        k = k + 1;
    }
    proof {
        assert(a@ =~= b@);
    }
    true
}

/// The first value under `key` among an object's members.
pub fn obj_get<'a>(members: &'a Vec<Member>, key: &str) -> (r: Option<&'a JsonValue>)
    ensures
        match r {
            Some(v) => spec_get(view_member_seq(members@), key@) == Some(view_json(*v)),
            None => spec_get(view_member_seq(members@), key@) is None,
        },
{
    proof {
        lemma_view_member_seq_len(members@);
    }
    let ghost vms = view_member_seq(members@);
    let mut k: usize = 0;
    while k < members.len()
        invariant
            k <= members@.len(),
            vms == view_member_seq(members@),
            vms.len() == members@.len(),
            spec_get_from(vms, key@, 0) == spec_get_from(vms, key@, k as int),
        decreases members@.len() - k,
    {
        proof {
            lemma_view_member_seq_index(members@, k as int);
        }
        let m = &members[k];
        if chars_eq_str(&m.key, key) {
            return Some(&m.value);
        }
        k = k + 1;
    }
    None
}

/// The texts of an array of strings; `None` if `j` is not such an array.
#[verifier::loop_isolation(false)]
fn chars_list_from(j: &JsonValue) -> (r: Option<Vec<Vec<char>>>)
    ensures
        match r {
            Some(l) => spec_str_array(view_json(*j)) && l.deep_view() == spec_str_seq_of(
                view_json(*j),
            ),
            None => !spec_str_array(view_json(*j)),
        },
{
    match j {
        JsonValue::Arr(items) => {
            let ghost vitems = view_json_seq(items@);
            proof {
                lemma_view_json_seq_len(items@);
            }
            let mut out: Vec<Vec<char>> = Vec::new();
            let mut k: usize = 0;
            while k < items.len()
                invariant
                    k <= items@.len(),
                    vitems == view_json_seq(items@),
                    vitems.len() == items@.len(),
                    out@.len() == k,
                    forall|m: int|
                        0 <= m < k ==> ((#[trigger] vitems[m]) matches Json::Str(_)
                            && out.deep_view()[m] == vitems[m]->Str_0),
                decreases items@.len() - k,
            {
                proof {
                    lemma_view_json_seq_index(items@, k as int);
                }
                let ghost old_out = out@;
                match &items[k] {
                    JsonValue::Str(t) => {
                        out.push(copy_range(t, 0, t.len()));
                        proof {
                            assert(forall|m: int|
                                0 <= m < k ==> out.deep_view()[m] =~= old_out[m]@);
                        }
                    },
                    _ => {
                        return None;
                    },
                }
                k = k + 1;
            }
            proof {
                assert(out.deep_view() =~= spec_str_seq_of(view_json(*j)));
            }
            Some(out)
        },
        _ => None,
    }
}

fn clone_chars(t: &Vec<char>) -> (r: Vec<char>)
    ensures
        r@ == t@,
{
    let r = copy_range(t, 0, t.len());
    proof {
        assert(t@.subrange(0, t@.len() as int) =~= t@);
    }
    r
}

impl User {
    /// Read an identity record out of a payload value; `None` if a required
    /// field is missing or any field has the wrong type.
    pub fn from_json(j: &JsonValue) -> (r: Option<User>)
        ensures
            match r {
                Some(u) => spec_user_shape(view_json(*j)) && spec_user_matches(u, view_json(*j)),
                None => !spec_user_shape(view_json(*j)),
            },
    {
        match j {
            JsonValue::Obj(ms) => {
                let date = match obj_get(ms, "date") {
                    Some(v) => match v {
                        JsonValue::Str(t) => clone_chars(t),
                        _ => {
                            return None;
                        },
                    },
                    None => {
                        return None;
                    },
                };
                let email = match obj_get(ms, "email") {
                    Some(v) => match v {
                        JsonValue::Str(t) => Some(clone_chars(t)),
                        JsonValue::Null => None,
                        _ => {
                            return None;
                        },
                    },
                    None => None,
                };
                let name = match obj_get(ms, "name") {
                    Some(v) => match v {
                        JsonValue::Str(t) => clone_chars(t),
                        _ => {
                            return None;
                        },
                    },
                    None => {
                        return None;
                    },
                };
                let username = match obj_get(ms, "username") {
                    Some(v) => match v {
                        JsonValue::Str(t) => clone_chars(t),
                        _ => {
                            return None;
                        },
                    },
                    None => {
                        return None;
                    },
                };
                Some(User { date, email, name, username })
            },
            _ => None,
        }
    }
}

impl Commits {
    /// Read a commit record out of a payload value; `None` if a required
    /// field is missing or any field has the wrong type.
    pub fn from_json(j: &JsonValue) -> (r: Option<Commits>)
        ensures
            match r {
                Some(c) => spec_commit_shape(view_json(*j)) && spec_commit_matches(
                    c,
                    view_json(*j),
                ),
                None => !spec_commit_shape(view_json(*j)),
            },
    {
        match j {
            JsonValue::Obj(ms) => {
                let added = match obj_get(ms, "added") {
                    Some(v) => match chars_list_from(v) {
                        Some(l) => l,
                        None => {
                            return None;
                        },
                    },
                    None => {
                        return None;
                    },
                };
                let author = match obj_get(ms, "author") {
                    Some(v) => match User::from_json(v) {
                        Some(u) => u,
                        None => {
                            return None;
                        },
                    },
                    None => {
                        return None;
                    },
                };
                let committer = match obj_get(ms, "committer") {
                    Some(v) => match User::from_json(v) {
                        Some(u) => u,
                        None => {
                            return None;
                        },
                    },
                    None => {
                        return None;
                    },
                };
                let distinct = match obj_get(ms, "distinct") {
                    Some(v) => match v {
                        JsonValue::Bool(b) => *b,
                        _ => {
                            return None;
                        },
                    },
                    None => {
                        return None;
                    },
                };
                let id = match obj_get(ms, "id") {
                    Some(v) => match v {
                        JsonValue::Str(t) => clone_chars(t),
                        _ => {
                            return None;
                        },
                    },
                    None => {
                        return None;
                    },
                };
                let message = match obj_get(ms, "message") {
                    Some(v) => match v {
                        JsonValue::Str(t) => clone_chars(t),
                        _ => {
                            return None;
                        },
                    },
                    None => {
                        return None;
                    },
                };
                let modified = match obj_get(ms, "modified") {
                    Some(v) => match v {
                        JsonValue::Null => None,
                        _ => match chars_list_from(v) {
                            Some(l) => Some(l),
                            None => {
                                return None;
                            },
                        },
                    },
                    None => None,
                };
                let removed = match obj_get(ms, "removed") {
                    Some(v) => match v {
                        JsonValue::Null => None,
                        _ => match chars_list_from(v) {
                            Some(l) => Some(l),
                            None => {
                                return None;
                            },
                        },
                    },
                    None => None,
                };
                let timestamp = match obj_get(ms, "timestamp") {
                    Some(v) => match v {
                        JsonValue::Str(t) => clone_chars(t),
                        _ => {
                            return None;
                        },
                    },
                    None => {
                        return None;
                    },
                };
                let tree_id = match obj_get(ms, "tree_id") {
                    Some(v) => match v {
                        JsonValue::Str(t) => clone_chars(t),
                        _ => {
                            return None;
                        },
                    },
                    None => {
                        return None;
                    },
                };
                let url = match obj_get(ms, "url") {
                    Some(v) => match v {
                        JsonValue::Str(t) => clone_chars(t),
                        _ => {
                            return None;
                        },
                    },
                    None => {
                        return None;
                    },
                };
                Some(
                    Commits {
                        added,
                        author,
                        committer,
                        distinct,
                        id,
                        message,
                        modified,
                        removed,
                        timestamp,
                        tree_id,
                        url,
                    },
                )
            },
            _ => None,
        }
    }
}

impl PushEvent {
    /// Read a push payload out of a parsed document; `None` if a required
    /// field is missing or any field has the wrong type.
    #[verifier::loop_isolation(false)]
    pub fn from_json(j: &JsonValue) -> (r: Option<PushEvent>)
        ensures
            match r {
                Some(p) => spec_push_shape(view_json(*j)) && spec_push_matches(p, view_json(*j)),
                None => !spec_push_shape(view_json(*j)),
            },
    {
        match j {
            JsonValue::Obj(ms) => {
                let after = match obj_get(ms, "after") {
                    Some(v) => match v {
                        JsonValue::Str(t) => clone_chars(t),
                        _ => {
                            return None;
                        },
                    },
                    None => {
                        return None;
                    },
                };
                let before = match obj_get(ms, "before") {
                    Some(v) => match v {
                        JsonValue::Str(t) => clone_chars(t),
                        _ => {
                            return None;
                        },
                    },
                    None => {
                        return None;
                    },
                };
                let ref_ = match obj_get(ms, "ref") {
                    Some(v) => match v {
                        JsonValue::Str(t) => clone_chars(t),
                        _ => {
                            return None;
                        },
                    },
                    None => {
                        return None;
                    },
                };
                let created = match obj_get(ms, "created") {
                    Some(v) => match v {
                        JsonValue::Bool(b) => *b,
                        _ => {
                            return None;
                        },
                    },
                    None => {
                        return None;
                    },
                };
                let deleted = match obj_get(ms, "deleted") {
                    Some(v) => match v {
                        JsonValue::Bool(b) => *b,
                        _ => {
                            return None;
                        },
                    },
                    None => {
                        return None;
                    },
                };
                let forced = match obj_get(ms, "forced") {
                    Some(v) => match v {
                        JsonValue::Bool(b) => *b,
                        _ => {
                            return None;
                        },
                    },
                    None => {
                        return None;
                    },
                };
                let commits = match obj_get(ms, "commits") {
                    Some(v) => match v {
                        JsonValue::Arr(items) => {
                            let ghost vitems = view_json_seq(items@);
                            proof {
                                lemma_view_json_seq_len(items@);
                            }
                            let mut out: Vec<Commits> = Vec::new();
                            let mut k: usize = 0;
                            while k < items.len()
                                invariant
                                    k <= items@.len(),
                                    vitems == view_json_seq(items@),
                                    vitems.len() == items@.len(),
                                    out@.len() == k,
                                    forall|m: int|
                                        0 <= m < k ==> spec_commit_shape(#[trigger] vitems[m])
                                            && spec_commit_matches(out@[m], vitems[m]),
                                decreases items@.len() - k,
                            {
                                proof {
                                    lemma_view_json_seq_index(items@, k as int);
                                }
                                match Commits::from_json(&items[k]) {
                                    Some(c) => {
                                        out.push(c);
                                    },
                                    None => {
                                        proof {
                                            assert(vitems[k as int] == view_json(
                                                items@[k as int],
                                            ));
                                            assert(!spec_commit_shape(vitems[k as int]));
                                            assert(spec_get(
                                                view_member_seq(ms@),
                                                "commits"@,
                                            ) == Some(Json::Arr(vitems)));
                                            assert(view_json(*j) == Json::Obj(
                                                view_member_seq(ms@),
                                            ));
                                            if spec_push_shape(view_json(*j)) {
                                                assert(match spec_get(
                                                    view_member_seq(ms@),
                                                    "commits"@,
                                                ) {
                                                    Some(Json::Arr(list)) => forall|m: int|
                                                        0 <= m < list.len()
                                                            ==> spec_commit_shape(
                                                            #[trigger] list[m],
                                                        ),
                                                    _ => false,
                                                });
                                                assert(spec_commit_shape(vitems[k as int]));
                                            }
                                        }
                                        return None;
                                    },
                                }
                                k = k + 1;
                            }
                            out
                        },
                        _ => {
                            return None;
                        },
                    },
                    None => {
                        return None;
                    },
                };
                let head_commit = match obj_get(ms, "head_commit") {
                    Some(v) => match Commits::from_json(v) {
                        Some(c) => c,
                        None => {
                            return None;
                        },
                    },
                    None => {
                        return None;
                    },
                };
                let pusher = match obj_get(ms, "pusher") {
                    Some(v) => match User::from_json(v) {
                        Some(u) => u,
                        None => {
                            return None;
                        },
                    },
                    None => {
                        return None;
                    },
                };
                let base_ref = match obj_get(ms, "base_ref") {
                    Some(v) => match v {
                        JsonValue::Str(t) => Some(clone_chars(t)),
                        JsonValue::Null => None,
                        _ => {
                            return None;
                        },
                    },
                    None => None,
                };
                let compare = match obj_get(ms, "compare") {
                    Some(v) => match v {
                        JsonValue::Str(t) => Some(clone_chars(t)),
                        JsonValue::Null => None,
                        _ => {
                            return None;
                        },
                    },
                    None => None,
                };
                let enterprise = match obj_get(ms, "enterprise") {
                    Some(v) => Some(clone_json(v)),
                    None => None,
                };
                let installation = match obj_get(ms, "installation") {
                    Some(v) => Some(clone_json(v)),
                    None => None,
                };
                let organization = match obj_get(ms, "organization") {
                    Some(v) => Some(clone_json(v)),
                    None => None,
                };
                let repository = match obj_get(ms, "repository") {
                    Some(v) => Some(clone_json(v)),
                    None => None,
                };
                let sender = match obj_get(ms, "sender") {
                    Some(v) => Some(clone_json(v)),
                    None => None,
                };
                Some(
                    PushEvent {
                        after,
                        base_ref,
                        before,
                        commits,
                        compare,
                        created,
                        deleted,
                        enterprise,
                        forced,
                        head_commit,
                        installation,
                        organization,
                        pusher,
                        ref_,
                        repository,
                        sender,
                    },
                )
            },
            _ => None,
        }
    }
}

} // verus!
