//! What an API key's scopes allow: a scope is granted by its own text or by `*`.
use vstd::prelude::*;
use vstd::string::*;

use crate::models::{ApiKey, ApiKeyScope, scope_name};
use crate::text::text_eq;

verus! {

broadcast use vstd::string::group_string_axioms;

/// The scope texts `granted` allow `scope`.
pub open spec fn grants(granted: Seq<Seq<char>>, scope: ApiKeyScope) -> bool {
    exists|i: int|
        0 <= i < granted.len() && (#[trigger] granted[i] == "*"@ || granted[i] == scope_name(
            scope,
        ))
}

/// The scope texts `granted` allow every one of `scopes`.
pub open spec fn grants_all(granted: Seq<Seq<char>>, scopes: Seq<ApiKeyScope>) -> bool {
    forall|j: int| 0 <= j < scopes.len() ==> grants(granted, #[trigger] scopes[j])
}

/// The scope texts `granted` allow one of `scopes` at least.
pub open spec fn grants_any(granted: Seq<Seq<char>>, scopes: Seq<ApiKeyScope>) -> bool {
    exists|j: int| 0 <= j < scopes.len() && grants(granted, #[trigger] scopes[j])
}

impl ApiKey {
    /// Whether the key is granted `scope`, directly or through `*`.
    pub fn has_scope(&self, scope: &ApiKeyScope) -> (res: bool)
        ensures
            res == grants(self.granted(), *scope),
    {
        let star = ApiKeyScope::Star.as_str();
        let wanted = scope.as_str();
        let mut i: usize = 0;
        while i < self.scopes.len()
            invariant
                star@ == "*"@,
                wanted@ == scope_name(*scope),
                i <= self.scopes@.len(),
                forall|j: int|
                    0 <= j < i ==> !(#[trigger] self.granted()[j] == "*"@ || self.granted()[j]
                        == scope_name(*scope)),
            decreases self.scopes@.len() - i,
        {
            let granted = self.scopes[i].as_str();
            if text_eq(granted, star) || text_eq(granted, wanted) {
                proof {
                    assert(self.granted()[i as int] == granted@);
                }
                return true;
            }
            i = i + 1;
        }
        false
    }

    /// Whether the key is granted every scope of `scopes`.
    pub fn has_all_scopes(&self, scopes: &[ApiKeyScope]) -> (res: bool)
        ensures
            res == grants_all(self.granted(), scopes@),
    {
        let mut i: usize = 0;
        while i < scopes.len()
            invariant
                i <= scopes@.len(),
                forall|j: int| 0 <= j < i ==> grants(self.granted(), #[trigger] scopes@[j]),
            decreases scopes@.len() - i,
        {
            if !self.has_scope(&scopes[i]) {
                return false;
            }
            i = i + 1;
        }
        true
    }

    /// Whether the key is granted one scope of `scopes` at least.
    pub fn has_any_scope(&self, scopes: &[ApiKeyScope]) -> (res: bool)
        ensures
            res == grants_any(self.granted(), scopes@),
    {
        let mut i: usize = 0;
        while i < scopes.len()
            invariant
                i <= scopes@.len(),
                forall|j: int| 0 <= j < i ==> !grants(self.granted(), #[trigger] scopes@[j]),
            decreases scopes@.len() - i,
        {
            if self.has_scope(&scopes[i]) {
                return true;
            }
            i = i + 1;
        }
        false
    }
}

/// The scope whose text has this length and starts with these two
/// characters (the second taken as a space for a one-character text).
spec fn scope_with_signature(len: nat, first: char, second: char) -> Option<ApiKeyScope> {
    if len == 1 && first == '*' {
        Some(ApiKeyScope::Star)
    } else if len == 13 && first == 'a' {
        Some(ApiKeyScope::ApiKeysColonRead)
    } else if len == 14 && first == 'a' {
        Some(ApiKeyScope::ApiKeysColonWrite)
    } else if len == 11 && first == 'c' {
        Some(ApiKeyScope::CrawlsColonRead)
    } else if len == 12 && first == 'c' {
        Some(ApiKeyScope::CrawlsColonWrite)
    } else if len == 16 && first == 'p' && second == 'a' {
        Some(ApiKeyScope::PatchNotesColonRead)
    } else if len == 17 && first == 'p' && second == 'a' {
        Some(ApiKeyScope::PatchNotesColonWrite)
    } else if len == 12 && first == 'p' {
        Some(ApiKeyScope::PlayersColonRead)
    } else if len == 20 && first == 'p' {
        Some(ApiKeyScope::PlayersColonReadDetails)
    } else if len == 13 && first == 'p' {
        Some(ApiKeyScope::PlayersColonWrite)
    } else if len == 16 && first == 'p' && second == 'u' {
        Some(ApiKeyScope::PunishmentsColonRead)
    } else if len == 17 && first == 'p' && second == 'u' {
        Some(ApiKeyScope::PunishmentsColonWrite)
    } else if len == 11 && first == 's' {
        Some(ApiKeyScope::StreamColonRead)
    } else {
        None
    }
}

/// The length and first two characters of a scope's text.
spec fn signature_of(text: Seq<char>) -> (nat, char, char) {
    (text.len(), text[0], if text.len() > 1 {
        text[1]
    } else {
        ' '
    })
}

proof fn lemma_scope_signature(scope: ApiKeyScope)
    ensures
        scope_name(scope).len() >= 1,
        scope_with_signature(
            signature_of(scope_name(scope)).0,
            signature_of(scope_name(scope)).1,
            signature_of(scope_name(scope)).2,
        ) == Some(scope),
{
    match scope {
        ApiKeyScope::Star => reveal_strlit("*"),
        ApiKeyScope::ApiKeysColonRead => reveal_strlit("api-keys:read"),
        ApiKeyScope::ApiKeysColonWrite => reveal_strlit("api-keys:write"),
        ApiKeyScope::CrawlsColonRead => reveal_strlit("crawls:read"),
        ApiKeyScope::CrawlsColonWrite => reveal_strlit("crawls:write"),
        ApiKeyScope::PatchNotesColonRead => reveal_strlit("patch-notes:read"),
        ApiKeyScope::PatchNotesColonWrite => reveal_strlit("patch-notes:write"),
        ApiKeyScope::PlayersColonRead => reveal_strlit("players:read"),
        ApiKeyScope::PlayersColonReadDetails => reveal_strlit("players:read-details"),
        ApiKeyScope::PlayersColonWrite => reveal_strlit("players:write"),
        ApiKeyScope::PunishmentsColonRead => reveal_strlit("punishments:read"),
        ApiKeyScope::PunishmentsColonWrite => reveal_strlit("punishments:write"),
        ApiKeyScope::StreamColonRead => reveal_strlit("stream:read"),
    }
}

/// No two scopes share a text, and only `*` is written `*`.
pub proof fn lemma_scope_names_distinct(a: ApiKeyScope, b: ApiKeyScope)
    ensures
        a != b ==> scope_name(a) != scope_name(b),
{
    lemma_scope_signature(a);
    lemma_scope_signature(b);
}

/// Law: a key granted `*` is granted every scope.
pub proof fn lemma_star_grants_every_scope(granted: Seq<Seq<char>>, scope: ApiKeyScope)
    requires
        granted.contains("*"@),
    ensures
        grants(granted, scope),
{
    let i = choose|i: int| 0 <= i < granted.len() && granted[i] == "*"@;
    assert(granted[i] == "*"@);
}

/// Law: a key granted one scope is granted that scope and no other, unless
/// the one scope is `*`.
pub proof fn lemma_scopes_do_not_imply_other_scopes(granted: ApiKeyScope, wanted: ApiKeyScope)
    ensures
        grants(seq![scope_name(granted)], wanted) <==> (granted == wanted || granted
            == ApiKeyScope::Star),
{
    let g = seq![scope_name(granted)];
    lemma_scope_names_distinct(granted, wanted);
    lemma_scope_names_distinct(granted, ApiKeyScope::Star);
    assert(scope_name(ApiKeyScope::Star) == "*"@);
    if granted == wanted || granted == ApiKeyScope::Star {
        assert(g[0] == scope_name(granted));
    }
}

/// Law: only a key granted `*` is granted `*`, so only such a key can pass
/// `*` on to a key it creates.
pub proof fn lemma_only_star_grants_star(granted: Seq<Seq<char>>)
    ensures
        grants_all(granted, seq![ApiKeyScope::Star]) <==> granted.contains("*"@),
{
    let s = seq![ApiKeyScope::Star];
    assert(scope_name(ApiKeyScope::Star) == "*"@);
    if grants_all(granted, s) {
        assert(grants(granted, s[0]));
        let i = choose|i: int|
            0 <= i < granted.len() && (granted[i] == "*"@ || granted[i] == scope_name(
                ApiKeyScope::Star,
            ));
        assert(granted[i] == "*"@);
    }
    if granted.contains("*"@) {
        lemma_star_grants_every_scope(granted, ApiKeyScope::Star);
    }
}

} // verus!
