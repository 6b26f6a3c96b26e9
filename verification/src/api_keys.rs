//! API key rules: which scopes a new key may be given, what a request to
//! create or list keys is answered, the walk that deletes a key together
//! with every key created under it, and the scopes shown with each key.
use vstd::prelude::*;

use crate::auth::credentials::{ApiKeyCredentials, parse_error_message, parse_error_of, spec_parse_token};
use crate::auth::scope::{grants, grants_all, lemma_scope_names_distinct};
use crate::models::{ApiKey, ApiKeyScope, Refusal, scope_name};
use crate::pagination::{Cursor, CursorError};
use crate::text::{char_vec, text_eq};

verus! {

/// The page size when a key listing names none, and the largest allowed.
pub const DEFAULT_API_KEYS_LIMIT: u8 = 20;

pub const MAX_API_KEYS_LIMIT: u8 = 100;

/// The scope a text names, if any.
pub open spec fn scope_named(text: Seq<char>) -> Option<ApiKeyScope> {
    if exists|s: ApiKeyScope| scope_name(s) == text {
        Some(choose|s: ApiKeyScope| scope_name(s) == text)
    } else {
        None
    }
}

/// Law: a scope's text names that scope and no other.
pub proof fn lemma_scope_named(scope: ApiKeyScope)
    ensures
        scope_named(scope_name(scope)) == Some(scope),
{
    let s = choose|s: ApiKeyScope| scope_name(s) == scope_name(scope);
    lemma_scope_names_distinct(s, scope);
}

/// The texts of a list of strings.
pub open spec fn texts(strings: Seq<String>) -> Seq<Seq<char>> {
    strings.map_values(|s: String| s@)
}

/// Every text names a scope and no text comes twice.
pub open spec fn valid_scope_texts(t: Seq<Seq<char>>) -> bool {
    &&& forall|i: int| 0 <= i < t.len() ==> (#[trigger] scope_named(t[i])) is Some
    &&& forall|i: int, j: int| 0 <= i < j < t.len() ==> #[trigger] t[i] != #[trigger] t[j]
}

/// The scopes a list of texts names, in order.
pub open spec fn scopes_named(t: Seq<Seq<char>>) -> Seq<ApiKeyScope> {
    t.map_values(|x: Seq<char>| scope_named(x)->0)
}

/// The scopes a list of texts names, where each names one and none comes
/// twice.
pub fn parse_api_key_scopes(scopes: &[String]) -> (res: Option<Vec<ApiKeyScope>>)
    ensures
        valid_scope_texts(texts(scopes@)) ==> (res matches Some(v) && v@ == scopes_named(
            texts(scopes@),
        )),
        !valid_scope_texts(texts(scopes@)) ==> res is None,
{
    let ghost t = texts(scopes@);
    let mut parsed: Vec<ApiKeyScope> = Vec::new();
    let mut i: usize = 0;
    while i < scopes.len()
        invariant
            t == texts(scopes@),
            i <= scopes@.len(),
            parsed@.len() == i,
            forall|k: int| 0 <= k < i ==> scope_named(#[trigger] t[k]) == Some(parsed@[k]),
        decreases scopes@.len() - i,
    {
        match ApiKeyScope::parse(scopes[i].as_str()) {
            Some(scope) => {
                proof {
                    lemma_scope_named(scope);
                    assert(t[i as int] == scopes@[i as int]@);
                }
                parsed.push(scope);
            },
            None => {
                proof {
                    assert(t[i as int] == scopes@[i as int]@);
                    if scope_named(t[i as int]) is Some {
                        let s = choose|s: ApiKeyScope| scope_name(s) == t[i as int];
                        assert(scope_name(s) == t[i as int]);
                    }
                }
                return None;
            },
        }
        i = i + 1;
    }
    let mut a: usize = 0;
    while a < parsed.len()
        invariant
            t == texts(scopes@),
            parsed@.len() == scopes@.len(),
            a <= parsed@.len(),
            forall|k: int| 0 <= k < parsed@.len() ==> scope_named(#[trigger] t[k]) == Some(parsed@[k]),
            forall|x: int, y: int| 0 <= x < a && x < y < parsed@.len() ==> parsed@[x] != parsed@[y],
        decreases parsed@.len() - a,
    {
        let mut b: usize = a + 1;
        while b < parsed.len()
            invariant
                t == texts(scopes@),
                parsed@.len() == scopes@.len(),
                a < parsed@.len(),
                a < b <= parsed@.len(),
                forall|k: int| 0 <= k < parsed@.len() ==> scope_named(#[trigger] t[k]) == Some(parsed@[k]),
                forall|y: int| a < y < b ==> parsed@[a as int] != parsed@[y],
            decreases parsed@.len() - b,
        {
            if parsed[a] == parsed[b] {
                proof {
                    assert(scope_named(t[a as int]) == scope_named(t[b as int]));
                    let s = parsed@[a as int];
                    lemma_scope_named(s);
                    assert(t[a as int] == scope_name(s)) by {
                        let c = choose|c: ApiKeyScope| scope_name(c) == t[a as int];
                        assert(scope_name(c) == t[a as int]);
                    }
                    assert(t[b as int] == scope_name(s)) by {
                        let c = choose|c: ApiKeyScope| scope_name(c) == t[b as int];
                        assert(scope_name(c) == t[b as int]);
                    }
                }
                return None;
            }
            b = b + 1;
        }
        a = a + 1;
    }
    proof {
        assert forall|x: int, y: int| 0 <= x < y < t.len() implies #[trigger] t[x] != #[trigger] t[y] by {
            if t[x] == t[y] {
                assert(parsed@[x] != parsed@[y]);
            }
        }
        assert(parsed@ =~= scopes_named(t));
    }
    Some(parsed)
}


/// The body of a request to create an API key. An outer `None` expiry is
/// absent, `Some(None)` is an explicit null; both mean the key never
/// expires.
pub struct CreateApiKeyRequest {
    pub name: String,
    pub scopes: Vec<String>,
    pub expires_at: Option<Option<i128>>,
}

/// What a new key is created with: its scopes, their canonical texts, and
/// when it expires.
pub struct NewApiKey {
    pub scopes: Vec<ApiKeyScope>,
    pub scope_texts: Vec<String>,
    pub expires_at: Option<i128>,
}

/// The expiry a request sets.
pub open spec fn requested_expiry(expires_at: Option<Option<i128>>) -> Option<i128> {
    match expires_at {
        Some(Some(at)) => Some(at),
        _ => None,
    }
}

/// What a request to create a key is answered before anything is written,
/// or what the key is created with. In this order: a key that may not write
/// keys (403); a name outside 1 to 100 characters (400); scope texts that
/// name no scope or repeat one (400); scopes the creating key does not hold
/// itself (403); an expiry that is not after `now` (400).
pub fn plan_create_api_key(api_key: &ApiKey, body: &CreateApiKeyRequest, now: i128) -> (res: Result<
    NewApiKey,
    Refusal,
>)
    ensures
        !grants(api_key.granted(), ApiKeyScope::ApiKeysColonWrite) ==> res == Err::<
            NewApiKey,
            Refusal,
        >(Refusal::Forbidden),
        grants(api_key.granted(), ApiKeyScope::ApiKeysColonWrite) ==> if !(1 <= body.name@.len()
            <= 100) || !valid_scope_texts(texts(body.scopes@)) {
            res == Err::<NewApiKey, Refusal>(Refusal::Invalid)
        } else if !grants_all(api_key.granted(), scopes_named(texts(body.scopes@))) {
            res == Err::<NewApiKey, Refusal>(Refusal::Forbidden)
        } else if requested_expiry(body.expires_at) matches Some(at) && at <= now {
            res == Err::<NewApiKey, Refusal>(Refusal::Invalid)
        } else {
            res matches Ok(plan) && plan.scopes@ == scopes_named(texts(body.scopes@)) && texts(
                plan.scope_texts@,
            ) == texts(body.scopes@) && plan.expires_at == requested_expiry(body.expires_at)
        },
{
    if !api_key.has_scope(&ApiKeyScope::ApiKeysColonWrite) {
        return Err(Refusal::Forbidden);
    }
    let name_length = char_vec(body.name.as_str()).len();
    if !(1 <= name_length && name_length <= 100) {
        return Err(Refusal::Invalid);
    }
    let scopes = match parse_api_key_scopes(body.scopes.as_slice()) {
        Some(scopes) => scopes,
        None => return Err(Refusal::Invalid),
    };
    if !api_key.has_all_scopes(scopes.as_slice()) {
        return Err(Refusal::Forbidden);
    }
    let expires_at = match body.expires_at {
        Some(Some(at)) => Some(at),
        _ => None,
    };
    if let Some(at) = expires_at {
        if at <= now {
            return Err(Refusal::Invalid);
        }
    }
    let ghost t = texts(body.scopes@);
    let mut scope_texts: Vec<String> = Vec::new();
    let mut i: usize = 0;
    while i < scopes.len()
        invariant
            t == texts(body.scopes@),
            scopes@ == scopes_named(t),
            i <= scopes@.len(),
            valid_scope_texts(t),
            texts(scope_texts@) == t.take(i as int),
        decreases scopes@.len() - i,
    {
        let text = scopes[i].to_text();
        proof {
            let x = t[i as int];
            assert(scope_named(x) is Some);
            let c = choose|c: ApiKeyScope| scope_name(c) == x;
            assert(scope_name(c) == x);
            assert(scopes@[i as int] == c);
            assert(texts(scope_texts@.push(text)) =~= texts(scope_texts@).push(text@));
            assert(t.take(i + 1) =~= t.take(i as int).push(x));
        }
        scope_texts.push(text);
        i = i + 1;
    }
    proof {
        assert(t.take(scopes@.len() as int) =~= t);
    }
    Ok(NewApiKey { scopes, scope_texts, expires_at })
}

/// The page size a key listing is read with and the cursor it continues
/// after, or `Invalid` for a limit outside 1 to 100 or a cursor that could
/// not be read (a key that may not read keys is refused first).
pub fn plan_list_api_keys(
    api_key: &ApiKey,
    limit: Option<u8>,
    cursor: Option<Result<Cursor<i128, String>, CursorError>>,
) -> (res: Result<(usize, Option<Cursor<i128, String>>), Refusal>)
    ensures
        !grants(api_key.granted(), ApiKeyScope::ApiKeysColonRead) ==> res is Err && res->Err_0
            == Refusal::Forbidden,
        grants(api_key.granted(), ApiKeyScope::ApiKeysColonRead) ==> {
            let l = match limit {
                Some(l) => l,
                None => DEFAULT_API_KEYS_LIMIT,
            };
            if !(1 <= l <= MAX_API_KEYS_LIMIT) || (cursor matches Some(c) && c is Err) {
                res is Err && res->Err_0 == Refusal::Invalid
            } else {
                res matches Ok(page) && page.0 == l && match cursor {
                    Some(Ok(c)) => page.1 == Some(c),
                    _ => page.1 is None,
                }
            }
        },
{
    if !api_key.has_scope(&ApiKeyScope::ApiKeysColonRead) {
        return Err(Refusal::Forbidden);
    }
    let l = match limit {
        Some(l) => l,
        None => DEFAULT_API_KEYS_LIMIT,
    };
    if !(1 <= l && l <= MAX_API_KEYS_LIMIT) {
        return Err(Refusal::Invalid);
    }
    match cursor {
        Some(Ok(c)) => Ok((l as usize, Some(c))),
        Some(Err(_)) => Err(Refusal::Invalid),
        None => Ok((l as usize, None)),
    }
}

/// A row of the `api_keys` table as a listing reads it.
pub struct ApiKeyRecord {
    pub public_id: String,
    pub name: String,
    pub created_at: i128,
    pub expires_at: Option<i128>,
}

/// A key as a listing shows it, with its scopes.
pub struct ApiKeyListItem {
    pub name: String,
    pub public_id: String,
    pub scopes: Vec<String>,
    pub created_at: i128,
    pub expires_at: Option<i128>,
}

/// The scope texts of one key among rows of (key, scope), in order.
pub open spec fn scopes_of(rows: Seq<(String, String)>, public_id: Seq<char>) -> Seq<Seq<char>>
    decreases rows.len(),
{
    if rows.len() == 0 {
        Seq::empty()
    } else {
        let rest = scopes_of(rows.drop_last(), public_id);
        if rows.last().0@ == public_id {
            rest.push(rows.last().1@)
        } else {
            rest
        }
    }
}

/// The scope texts of one key among rows of (key, scope), in order.
pub fn scopes_for(rows: &[(String, String)], public_id: &str) -> (res: Vec<String>)
    ensures
        texts(res@) == scopes_of(rows@, public_id@),
{
    let mut out: Vec<String> = Vec::new();
    let mut i: usize = 0;
    while i < rows.len()
        invariant
            i <= rows@.len(),
            texts(out@) == scopes_of(rows@.take(i as int), public_id@),
        decreases rows@.len() - i,
    {
        proof {
            assert(rows@.take(i + 1).drop_last() =~= rows@.take(i as int));
            assert(rows@.take(i + 1).last() == rows@[i as int]);
        }
        if text_eq(rows[i].0.as_str(), public_id) {
            let scope = rows[i].1.clone();
            proof {
                assert(texts(out@.push(scope)) =~= texts(out@).push(scope@));
            }
            out.push(scope);
        }
        i = i + 1;
    }
    proof {
        assert(rows@.take(rows@.len() as int) =~= rows@);
    }
    out
}

impl ApiKeyRecord {
    /// The listing item of the key, with its scopes from rows of
    /// (key, scope).
    pub fn into_list_item(self, scopes: &[(String, String)]) -> (res: ApiKeyListItem)
        ensures
            res.name == self.name,
            res.public_id == self.public_id,
            texts(res.scopes@) == scopes_of(scopes@, self.public_id@),
            res.created_at == self.created_at,
            res.expires_at == self.expires_at,
    {
        let item_scopes = scopes_for(scopes, self.public_id.as_str());
        ApiKeyListItem {
            name: self.name,
            public_id: self.public_id,
            scopes: item_scopes,
            created_at: self.created_at,
            expires_at: self.expires_at,
        }
    }
}

/// The keys (created-at instant, public ID) of a page read with one row
/// more than `limit`, newest first: the extra row is dropped, and the page
/// continues after the last row kept.
pub fn api_key_page_cursor(rows: &mut Vec<(i128, String)>, limit: usize) -> (res: Option<
    Cursor<i128, String>,
>)
    requires
        !(limit == 0 && old(rows)@.len() == 1),
    ensures
        old(rows)@.len() <= limit ==> res is None && final(rows)@ == old(rows)@,
        old(rows)@.len() > limit ==> final(rows)@ == old(rows)@.drop_last() && (res matches Some(
            c,
        ) && c.value == old(rows)@[old(rows)@.len() - 2].0 && c.tie_breaker == old(rows)@[old(rows)@.len() - 2].1),
{
    if rows.len() <= limit {
        return None;
    }
    let _ = rows.pop();
    let n = rows.len();
    let value = rows[n - 1].0;
    let tie_breaker = rows[n - 1].1.clone();
    Some(Cursor { value, tie_breaker })
}

/// The message of a bootstrap key that cannot be read.
pub open spec fn bootstrap_error_message(error: Seq<char>) -> Seq<char> {
    "GRAPH_BOOTSTRAP_API_KEY is invalid: "@ + error
}

/// The credentials of the bootstrap key configured for the server, or why
/// the configured text is refused.
pub fn bootstrap_credentials(token: &str) -> (res: Result<ApiKeyCredentials, String>)
    ensures
        match spec_parse_token(token@) {
            Ok(parts) => res matches Ok(c) && c@ == parts,
            Err(e) => res matches Err(m) && m@ == bootstrap_error_message(
                parse_error_message(parse_error_of(e)),
            ),
        },
{
    match ApiKeyCredentials::parse(token) {
        Ok(credentials) => Ok(credentials),
        Err(e) => {
            let mut message = String::new();
            message.append("GRAPH_BOOTSTRAP_API_KEY is invalid: ");
            message.append(e.message());
            Err(message)
        },
    }
}


/// What the walk over a key's creation tree does next.
pub enum WalkStep {
    /// Read the keys created by this one, then hand them to `visited`.
    Visit(String),
    /// Every key of the tree has been visited.
    Done,
    /// A key came up a second time: the tree has a cycle.
    Cycle,
}

/// The walk that deletes an API key together with every key created under
/// it: keys are taken from a stack, each is visited once, and the keys are
/// deleted in the reverse of the order they were visited, so that a key is
/// deleted before the key that created it.
pub struct KeyTreeWalk {
    pending: Vec<String>,
    order: Vec<String>,
    current: Option<String>,
    root: Ghost<Seq<char>>,
    creator: Ghost<Map<Seq<char>, Seq<char>>>,
}

/// No text comes twice.
pub open spec fn distinct_texts(t: Seq<Seq<char>>) -> bool {
    forall|i: int, j: int| 0 <= i < j < t.len() ==> #[trigger] t[i] != #[trigger] t[j]
}

fn contains_text(list: &Vec<String>, key: &str) -> (res: bool)
    ensures
        res == texts(list@).contains(key@),
{
    let mut i: usize = 0;
    while i < list.len()
        invariant
            i <= list@.len(),
            forall|k: int| 0 <= k < i ==> #[trigger] texts(list@)[k] != key@,
        decreases list@.len() - i,
    {
        if text_eq(list[i].as_str(), key) {
            proof {
                assert(texts(list@)[i as int] == key@);
            }
            return true;
        }
        i = i + 1;
    }
    false
}

fn append_texts(dst: &mut Vec<String>, src: &Vec<String>)
    ensures
        texts(final(dst)@) == texts(old(dst)@) + texts(src@),
{
    let ghost start = texts(dst@);
    let mut i: usize = 0;
    while i < src.len()
        invariant
            i <= src@.len(),
            texts(dst@) == start + texts(src@).take(i as int),
        decreases src@.len() - i,
    {
        let k = src[i].clone();
        proof {
            assert(texts(dst@.push(k)) =~= texts(dst@).push(k@));
            assert(texts(src@).take(i + 1) =~= texts(src@).take(i as int).push(k@));
        }
        dst.push(k);
        i = i + 1;
    }
    proof {
        assert(texts(src@).take(src@.len() as int) =~= texts(src@));
    }
}

impl KeyTreeWalk {
    /// The keys still to be visited, the top of the stack last.
    pub closed spec fn pending(&self) -> Seq<Seq<char>> {
        texts(self.pending@)
    }

    /// The keys visited so far, in order.
    pub closed spec fn visited_keys(&self) -> Seq<Seq<char>> {
        texts(self.order@)
    }

    /// The key being visited, between `next` and `visited`.
    pub closed spec fn current(&self) -> Option<Seq<char>> {
        match self.current {
            Some(c) => Some(c@),
            None => None,
        }
    }

    /// The key the walk starts from.
    pub closed spec fn root(&self) -> Seq<char> {
        self.root@
    }

    /// The key whose created keys first listed `key` (the root is its own).
    pub closed spec fn creator(&self) -> Map<Seq<char>, Seq<char>> {
        self.creator@
    }

    /// Every key visited was created by a key visited before it, and every
    /// key waiting on the stack by one visited already.
    pub closed spec fn wf(&self) -> bool {
        let order = texts(self.order@);
        let pending = texts(self.pending@);
        &&& distinct_texts(order)
        &&& self.creator@.contains_key(self.root@)
        &&& self.creator@[self.root@] == self.root@
        &&& forall|k: Seq<char>|
            #[trigger] self.creator@.contains_key(k) && k != self.root@ ==> order.contains(
                self.creator@[k],
            )
        &&& forall|i: int|
            0 <= i < order.len() ==> self.creator@.contains_key(#[trigger] order[i]) && (order[i]
                != self.root@ ==> exists|j: int| 0 <= j < i && order[j] == self.creator@[order[i]])
        &&& forall|i: int|
            0 <= i < pending.len() ==> self.creator@.contains_key(#[trigger] pending[i]) && (
            pending[i] != self.root@ ==> order.contains(self.creator@[pending[i]]))
        &&& match self.current {
            Some(c) => self.creator@.contains_key(c@) && !order.contains(c@) && (c@
                != self.root@ ==> order.contains(self.creator@[c@])),
            None => true,
        }
    }

    /// A walk from one key.
    pub fn new(root: String) -> (res: Self)
        ensures
            res.wf(),
            res.pending() == seq![root@],
            res.visited_keys() == Seq::<Seq<char>>::empty(),
            res.current() is None,
            res.root() == root@,
    {
        let ghost r = root@;
        let pending = vec![root];
        let res = KeyTreeWalk {
            pending,
            order: Vec::new(),
            current: None,
            root: Ghost(r),
            creator: Ghost(Map::empty().insert(r, r)),
        };
        proof {
            assert(texts(res.pending@) =~= seq![r]);
            assert(texts(res.order@) =~= Seq::<Seq<char>>::empty());
        }
        res
    }

    /// Takes the next key off the stack: `Done` when none is left, `Cycle`
    /// when it was visited already, otherwise `Visit` with the key, which
    /// becomes the current one.
    pub fn next(&mut self) -> (res: WalkStep)
        requires
            old(self).wf(),
            old(self).current() is None,
        ensures
            final(self).wf(),
            final(self).visited_keys() == old(self).visited_keys(),
            final(self).root() == old(self).root(),
            final(self).creator() == old(self).creator(),
            old(self).pending().len() == 0 ==> res is Done && final(self).pending() == old(self).pending() && final(self).current() is None,
            old(self).pending().len() > 0 ==> final(self).pending() == old(self).pending().drop_last(),
            old(self).pending().len() > 0 && old(self).visited_keys().contains(
                old(self).pending().last(),
            ) ==> res is Cycle && final(self).current() is None,
            old(self).pending().len() > 0 && !old(self).visited_keys().contains(
                old(self).pending().last(),
            ) ==> (res matches WalkStep::Visit(k) && k@ == old(self).pending().last() && final(self).current() == Some(k@)),
    {
        let ghost before = texts(self.pending@);
        let top = match self.pending.pop() {
            Some(top) => top,
            None => return WalkStep::Done,
        };
        proof {
            assert(texts(self.pending@) =~= before.drop_last());
            assert(before.last() == top@);
            assert(texts(self.pending@).len() == before.len() - 1);
            assert forall|i: int| 0 <= i < texts(self.pending@).len() implies self.creator@.contains_key(
                #[trigger] texts(self.pending@)[i],
            ) && (texts(self.pending@)[i] != self.root@ ==> texts(self.order@).contains(
                self.creator@[texts(self.pending@)[i]],
            )) by {
                assert(texts(self.pending@)[i] == before[i]);
            }
            assert(self.creator@.contains_key(before[before.len() - 1]));
        }
        if contains_text(&self.order, top.as_str()) {
            return WalkStep::Cycle;
        }
        let ghost t = top@;
        let step = WalkStep::Visit(top.clone());
        self.current = Some(top);
        proof {
            assert(!texts(self.order@).contains(t));
        }
        step
    }

    /// Records the visit of the current key: it goes to the visited keys,
    /// and the keys it created go on the stack (a key gets its creator the
    /// first time it is listed).
    pub fn visited(&mut self, created: Vec<String>)
        requires
            old(self).wf(),
        ensures
            final(self).wf(),
            final(self).root() == old(self).root(),
            final(self).current() is None,
            match old(self).current() {
                Some(c) => final(self).visited_keys() == old(self).visited_keys().push(c)
                    && final(self).pending() == old(self).pending() + texts(created@) && forall|
                    k: Seq<char>,
                | #[trigger] final(self).creator().contains_key(k) ==> final(self).creator()[k]
                    == if old(self).creator().contains_key(k) {
                    old(self).creator()[k]
                } else {
                    c
                },
                None => final(self).visited_keys() == old(self).visited_keys() && final(self).pending() == old(self).pending() && final(self).creator() == old(self).creator(),
            },
    {
        let current = match self.current.take() {
            Some(c) => c,
            None => return,
        };
        let ghost c = current@;
        let ghost old_order = texts(self.order@);
        let ghost old_pending = texts(self.pending@);
        let ghost old_creator = self.creator@;
        let ghost new_creator = Map::new(
            |k: Seq<char>| old_creator.contains_key(k) || texts(created@).contains(k),
            |k: Seq<char>|
                if old_creator.contains_key(k) {
                    old_creator[k]
                } else {
                    c
                },
        );
        self.order.push(current);
        proof {
            assert(texts(self.order@) =~= old_order.push(c));
        }
        let ghost created_texts = texts(created@);
        append_texts(&mut self.pending, &created);
        self.creator = Ghost(new_creator);
        proof {
            let order = texts(self.order@);
            let pending = texts(self.pending@);
            assert(order == old_order.push(c));
            assert(new_creator.contains_key(self.root@));
            assert(new_creator[self.root@] == self.root@);
            assert forall|k: Seq<char>| #[trigger] new_creator.contains_key(k) && k != self.root@
                implies order.contains(new_creator[k]) by {
                if old_creator.contains_key(k) {
                    assert(old_order.contains(old_creator[k]));
                    let m = choose|m: int| 0 <= m < old_order.len() && old_order[m] == old_creator[k];
                    assert(order[m] == old_order[m]);
                } else {
                    assert(order[order.len() - 1] == c);
                }
            }
            assert forall|x: int, y: int| 0 <= x < y < order.len() implies #[trigger] order[x]
                != #[trigger] order[y] by {
                if y == order.len() - 1 {
                    assert(old_order.contains(order[x])) by {
                        assert(old_order[x] == order[x]);
                    }
                }
            }
            assert forall|x: int| 0 <= x < order.len() implies new_creator.contains_key(
                #[trigger] order[x],
            ) && (order[x] != self.root@ ==> exists|j: int| 0 <= j < x && order[j]
                == new_creator[order[x]]) by {
                if x < old_order.len() {
                    assert(order[x] == old_order[x]);
                    if order[x] != self.root@ {
                        let j = choose|j: int| 0 <= j < x && old_order[j] == old_creator[old_order[x]];
                        assert(order[j] == old_order[j]);
                    }
                } else {
                    assert(order[x] == c);
                    if c != self.root@ {
                        let j = choose|j: int| 0 <= j < old_order.len() && old_order[j] == old_creator[c];
                        assert(order[j] == old_order[j]);
                    }
                }
            }
            assert forall|x: int| 0 <= x < pending.len() implies new_creator.contains_key(
                #[trigger] pending[x],
            ) && (pending[x] != self.root@ ==> order.contains(new_creator[pending[x]])) by {
                if x < old_pending.len() {
                    assert(pending[x] == old_pending[x]);
                    if pending[x] != self.root@ {
                        let j = choose|j: int| 0 <= j < old_order.len() && old_order[j] == old_creator[old_pending[x]];
                        assert(order[j] == old_order[j]);
                    }
                } else {
                    let k = x - old_pending.len();
                    assert(pending[x] == created_texts[k]);
                    assert(created_texts.contains(pending[x]));
                    if old_creator.contains_key(pending[x]) {
                        if pending[x] != self.root@ {
                            assert(old_order.contains(old_creator[pending[x]]));
                            let m = choose|m: int| 0 <= m < old_order.len() && old_order[m] == old_creator[pending[x]];
                            assert(order[m] == old_order[m]);
                        }
                    } else {
                        assert(order[order.len() - 1] == c);
                    }
                }
            }
        }
    }

    /// The keys to delete, in the reverse of the order they were visited.
    pub fn deletion_order(&self) -> (res: Vec<String>)
        ensures
            texts(res@) == self.visited_keys().reverse(),
    {
        let mut out: Vec<String> = Vec::new();
        let mut i: usize = self.order.len();
        let ghost order = texts(self.order@);
        while i > 0
            invariant
                i <= self.order@.len(),
                order == texts(self.order@),
                texts(out@) == order.subrange(i as int, order.len() as int).reverse(),
            decreases i,
        {
            let k = self.order[i - 1].clone();
            proof {
                assert(texts(out@.push(k)) =~= texts(out@).push(k@));
                assert(order.subrange(i - 1, order.len() as int).reverse() =~= order.subrange(
                    i as int,
                    order.len() as int,
                ).reverse().push(order[i - 1]));
            }
            out.push(k);
            i = i - 1;
        }
        proof {
            assert(order.subrange(0, order.len() as int) =~= order);
        }
        out
    }
}

/// Law: in the deletion order, every key comes before the key that created
/// it, and no key comes twice.
pub proof fn lemma_created_keys_deleted_first(walk: KeyTreeWalk, i: int)
    requires
        walk.wf(),
        0 <= i < walk.visited_keys().len(),
        walk.visited_keys()[i] != walk.root(),
    ensures
        distinct_texts(walk.visited_keys().reverse()),
        exists|j: int|
            0 <= j < walk.visited_keys().len() && walk.visited_keys().reverse()[j]
                == walk.creator()[walk.visited_keys()[i]] && walk.visited_keys().len() - 1 - i < j,
{
    let order = walk.visited_keys();
    let n = order.len();
    let j = choose|j: int| 0 <= j < i && order[j] == walk.creator()[order[i]];
    assert(order.reverse()[n - 1 - j] == order[j]);
    assert forall|x: int, y: int| 0 <= x < y < n implies #[trigger] order.reverse()[x]
        != #[trigger] order.reverse()[y] by {
        assert(order.reverse()[x] == order[n - 1 - x]);
        assert(order.reverse()[y] == order[n - 1 - y]);
    }
}

} // verus!
