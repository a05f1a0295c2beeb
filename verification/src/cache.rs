//! The store of the latest token of each identity.

use vstd::prelude::*;
use crate::token::{Token, TokenView};

verus! {

/// Some token in `tokens` belongs to `id`.
pub open spec fn holds_id(tokens: Seq<TokenView>, id: Seq<char>) -> bool {
    exists|i: int| 0 <= i < tokens.len() && tokens[i].id == id
}

/// No two tokens in `tokens` belong to the same identity.
pub open spec fn distinct_ids(tokens: Seq<TokenView>) -> bool {
    forall|i: int, j: int| 0 <= i < j < tokens.len() ==> tokens[i].id != tokens[j].id
}

/// The mapping that is left when `tokens` are stored one after another into
/// an empty cache: every identity with the last token stored for it.
pub open spec fn latest_by_id(tokens: Seq<TokenView>) -> Map<Seq<char>, TokenView>
    decreases tokens.len(),
{
    if tokens.len() == 0 {
        Map::empty()
    } else {
        stored(latest_by_id(tokens.drop_last()), tokens.last())
    }
}

/// The cache after `token` is stored: it takes the place of whatever was held
/// for its identity.
pub open spec fn stored(before: Map<Seq<char>, TokenView>, token: TokenView) -> Map<
    Seq<char>,
    TokenView,
> {
    before.insert(token.id, token)
}

/// The token that a cache holds for `id`, if it holds one.
pub open spec fn lookup(cache: Map<Seq<char>, TokenView>, id: Seq<char>) -> Option<TokenView> {
    if cache.contains_key(id) {
        Some(cache[id])
    } else {
        None
    }
}

/// The plain contents of a token that may be missing.
pub open spec fn found_view(found: Option<Token>) -> Option<TokenView> {
    match found {
        Some(token) => Some(token@),
        None => None,
    }
}

/// The plain contents of a run of tokens.
pub open spec fn token_views(tokens: Seq<Token>) -> Seq<TokenView> {
    tokens.map_values(|t: Token| t@)
}

/// The plain contents of the tokens of a listing.
pub open spec fn listed_tokens(entries: Seq<(String, Token)>) -> Seq<TokenView> {
    entries.map_values(|e: (String, Token)| e.1@)
}

/// A token that was stored is the one found under its identity.
pub proof fn lemma_read_after_write(before: Map<Seq<char>, TokenView>, token: TokenView)
    ensures
        lookup(stored(before, token), token.id) == Some(token),
{
}

/// Storing a token leaves the entries of all other identities as they were.
pub proof fn lemma_store_keeps_others(
    before: Map<Seq<char>, TokenView>,
    token: TokenView,
    id: Seq<char>,
)
    requires
        id != token.id,
    ensures
        lookup(stored(before, token), id) == lookup(before, id),
{
}

/// Of two tokens stored for one identity, one after the other, only the
/// second is held: the cache is as if the first had never been stored.
pub proof fn lemma_second_store_wins(
    before: Map<Seq<char>, TokenView>,
    first: TokenView,
    second: TokenView,
)
    requires
        first.id == second.id,
    ensures
        stored(stored(before, first), second) == stored(before, second),
        lookup(stored(stored(before, first), second), first.id) == Some(second),
{
    assert(stored(stored(before, first), second) =~= stored(before, second));
}

/// Tokens of different identities can be stored in either order.
pub proof fn lemma_stores_commute(
    before: Map<Seq<char>, TokenView>,
    first: TokenView,
    second: TokenView,
)
    requires
        first.id != second.id,
    ensures
        stored(stored(before, first), second) == stored(stored(before, second), first),
{
    assert(stored(stored(before, first), second) =~= stored(stored(before, second), first));
}

/// Nothing is found under an identity for which no token was stored.
pub proof fn lemma_never_stored_is_not_found(tokens: Seq<TokenView>, id: Seq<char>)
    requires
        !holds_id(tokens, id),
    ensures
        lookup(latest_by_id(tokens), id) is None,
{
    lemma_latest_by_id_keys(tokens, id);
}

/// The identities stored are exactly those that some token belongs to.
pub proof fn lemma_latest_by_id_keys(tokens: Seq<TokenView>, id: Seq<char>)
    ensures
        latest_by_id(tokens).contains_key(id) <==> holds_id(tokens, id),
    decreases tokens.len(),
{
    if tokens.len() > 0 {
        let front = tokens.drop_last();
        lemma_latest_by_id_keys(front, id);
        if holds_id(front, id) {
            let i = choose|i: int| 0 <= i < front.len() && front[i].id == id;
            assert(tokens[i].id == id);
        }
        if holds_id(tokens, id) && tokens.last().id != id {
            let i = choose|i: int| 0 <= i < tokens.len() && tokens[i].id == id;
            assert(front[i].id == id);
        }
    }
}

/// An identity is mapped to the last token stored for it: the token at `i`
/// is the stored one when no later token belongs to the same identity.
pub proof fn lemma_latest_by_id_value(tokens: Seq<TokenView>, i: int)
    requires
        0 <= i < tokens.len(),
        forall|j: int| i < j < tokens.len() ==> tokens[j].id != tokens[i].id,
    ensures
        latest_by_id(tokens).contains_key(tokens[i].id),
        latest_by_id(tokens)[tokens[i].id] == tokens[i],
    decreases tokens.len(),
{
    if i < tokens.len() - 1 {
        let front = tokens.drop_last();
        assert(front[i] == tokens[i]);
        assert forall|j: int| i < j < front.len() implies front[j].id != front[i].id by {
            assert(front[j] == tokens[j]);
        }
        lemma_latest_by_id_value(front, i);
    }
}

/// The order of storing does not matter where every identity is stored once:
/// two runs of tokens that hold the same tokens leave the same mapping.
pub proof fn lemma_latest_by_id_any_order(first: Seq<TokenView>, second: Seq<TokenView>)
    requires
        distinct_ids(first),
        distinct_ids(second),
        forall|t: TokenView| first.contains(t) <==> second.contains(t),
    ensures
        latest_by_id(first) == latest_by_id(second),
{
    let m1 = latest_by_id(first);
    let m2 = latest_by_id(second);
    assert forall|id: Seq<char>| #[trigger] m1.dom().contains(id) implies m2.dom().contains(id)
        && m1[id] == m2[id] by {
        lemma_latest_by_id_keys(first, id);
        let i = choose|i: int| 0 <= i < first.len() && first[i].id == id;
        assert(first.contains(first[i]));
        let j = choose|j: int| 0 <= j < second.len() && second[j] == first[i];
        lemma_latest_by_id_value(first, i);
        lemma_latest_by_id_value(second, j);
    }
    assert forall|id: Seq<char>| #[trigger] m2.dom().contains(id) implies m1.dom().contains(
        id,
    ) by {
        lemma_latest_by_id_keys(second, id);
        let j = choose|j: int| 0 <= j < second.len() && second[j].id == id;
        assert(second.contains(second[j]));
        let i = choose|i: int| 0 <= i < first.len() && first[i] == second[j];
        lemma_latest_by_id_value(first, i);
    }
    assert(m1 =~= m2);
}

/// Replacing the token of an identity in place is storing the new token.
proof fn lemma_replace_is_insert(tokens: Seq<TokenView>, i: int, token: TokenView)
    requires
        distinct_ids(tokens),
        0 <= i < tokens.len(),
        tokens[i].id == token.id,
    ensures
        latest_by_id(tokens.update(i, token)) == latest_by_id(tokens).insert(token.id, token),
        distinct_ids(tokens.update(i, token)),
    decreases tokens.len(),
{
    let replaced = tokens.update(i, token);
    let front = tokens.drop_last();
    if i == tokens.len() - 1 {
        assert(replaced.drop_last() =~= front);
        assert(latest_by_id(replaced) =~= latest_by_id(tokens).insert(token.id, token));
    } else {
        assert(replaced.drop_last() =~= front.update(i, token));
        assert forall|a: int, b: int| 0 <= a < b < front.len() implies front[a].id
            != front[b].id by {
            assert(tokens[a].id != tokens[b].id);
        }
        lemma_replace_is_insert(front, i, token);
        assert(tokens[i].id != tokens[tokens.len() - 1].id);
        assert(latest_by_id(replaced) =~= latest_by_id(tokens).insert(token.id, token));
    }
}

/// A run of tokens with distinct identities leaves as many entries as it has
/// tokens.
pub proof fn lemma_latest_by_id_len(tokens: Seq<TokenView>)
    requires
        distinct_ids(tokens),
    ensures
        latest_by_id(tokens).dom().finite(),
        latest_by_id(tokens).len() == tokens.len(),
    decreases tokens.len(),
{
    if tokens.len() > 0 {
        let front = tokens.drop_last();
        assert forall|a: int, b: int| 0 <= a < b < front.len() implies front[a].id
            != front[b].id by {
            assert(tokens[a].id != tokens[b].id);
        }
        lemma_latest_by_id_len(front);
        lemma_latest_by_id_keys(front, tokens.last().id);
        if holds_id(front, tokens.last().id) {
            let i = choose|i: int| 0 <= i < front.len() && front[i].id == tokens.last().id;
            assert(tokens[i].id != tokens[tokens.len() - 1].id);
        }
    }
}

/// The latest token of every identity that was refreshed so far.
#[derive(Debug)]
pub struct Cache {
    store: Vec<Token>,
}

impl View for Cache {
    type V = Map<Seq<char>, TokenView>;

    closed spec fn view(&self) -> Map<Seq<char>, TokenView> {
        latest_by_id(token_views(self.store@))
    }
}

impl Cache {
    /// Every identity is held once.
    #[verifier::type_invariant]
    spec fn one_entry_per_id(&self) -> bool {
        distinct_ids(token_views(self.store@))
    }

    /// An empty cache.
    pub fn new() -> (r: Cache)
        ensures
            r@ == Map::<Seq<char>, TokenView>::empty(),
    {
        let store: Vec<Token> = Vec::new();
        assert(token_views(store@) =~= Seq::<TokenView>::empty());
        Cache { store }
    }

    /// The place of the entry of `id`, if there is one.
    fn position(&self, id: &str) -> (r: Option<usize>)
        ensures
            match r {
                Some(i) => i < self.store@.len() && self.store@[i as int]@.id == id@,
                None => !holds_id(token_views(self.store@), id@),
            },
    {
        let wanted = id.to_owned();
        let mut i: usize = 0;
        while i < self.store.len()
            invariant
                i <= self.store@.len(),
                wanted@ == id@,
                forall|k: int| 0 <= k < i ==> self.store@[k]@.id != id@,
            decreases self.store@.len() - i,
        {
            if *self.store[i].identity() == wanted {
                return Some(i);
            }
            i += 1;
        }
        assert forall|k: int| 0 <= k < token_views(self.store@).len() implies token_views(
            self.store@,
        )[k].id != id@ by {
            assert(token_views(self.store@)[k] == self.store@[k]@);
        }
        None
    }

    /// Puts `token` in the place of whatever was held for its identity.
    pub fn store(&mut self, token: Token)
        ensures
            final(self)@ == stored(old(self)@, token@),
    {
        proof {
            use_type_invariant(&*self);
        }
        let found = self.position(token.identity().as_str());
        let mut taken = Cache::new();
        std::mem::swap(self, &mut taken);
        let mut store = taken.store;
        let ghost before = token_views(store@);
        match found {
            Some(i) => {
                proof {
                    assert(before[i as int] == store@[i as int]@);
                    lemma_replace_is_insert(before, i as int, token@);
                    assert(token_views(store@.update(i as int, token)) =~= before.update(
                        i as int,
                        token@,
                    ));
                }
                store.set(i, token);
            },
            None => {
                proof {
                    let after = token_views(store@.push(token));
                    assert(after =~= before.push(token@));
                    assert(after.drop_last() =~= before);
                    assert forall|a: int, b: int| 0 <= a < b < after.len() implies after[a].id
                        != after[b].id by {
                        if b < before.len() {
                            assert(before[a].id != before[b].id);
                        } else {
                            assert(before[a].id == after[a].id);
                        }
                    }
                }
                store.push(token);
            },
        }
        *self = Cache { store };
    }

    /// The token held for `id`, if one is held.
    pub fn get(&self, id: &str) -> (r: Option<Token>)
        ensures
            found_view(r) == lookup(self@, id@),
    {
        proof {
            use_type_invariant(self);
            lemma_latest_by_id_keys(token_views(self.store@), id@);
        }
        match self.position(id) {
            Some(i) => {
                proof {
                    let views = token_views(self.store@);
                    assert(views[i as int] == self.store@[i as int]@);
                    lemma_latest_by_id_value(views, i as int);
                }
                Some(self.store[i].clone())
            },
            None => None,
        }
    }

    /// Every entry at the time of the call, as pairs of identity and token.
    /// Read as a mapping the pairs are the cache: each identity occurs once,
    /// beside its token.
    pub fn list(self) -> (r: Vec<(String, Token)>)
        ensures
            forall|i: int| 0 <= i < r@.len() ==> (#[trigger] r@[i]).0@ == r@[i].1@.id,
            distinct_ids(listed_tokens(r@)),
            latest_by_id(listed_tokens(r@)) == self@,
            r@.len() == self@.len(),
    {
        proof {
            use_type_invariant(&self);
            lemma_latest_by_id_len(token_views(self.store@));
        }
        let mut entries: Vec<(String, Token)> = Vec::new();
        let mut i: usize = 0;
        while i < self.store.len()
            invariant
                i <= self.store@.len(),
                entries@.len() == i,
                forall|k: int| 0 <= k < i ==> (#[trigger] entries@[k]).0@ == entries@[k].1@.id,
                forall|k: int| 0 <= k < i ==> (#[trigger] entries@[k]).1@ == self.store@[k]@,
            decreases self.store@.len() - i,
        {
            let token = self.store[i].clone();
            let id = token.identity().clone();
            entries.push((id, token));
            i += 1;
        }
        assert(listed_tokens(entries@) =~= token_views(self.store@));
        entries
    }
}

impl Clone for Cache {
    fn clone(&self) -> (r: Cache)
        ensures
            r@ == self@,
    {
        proof {
            use_type_invariant(self);
        }
        let mut store: Vec<Token> = Vec::new();
        let mut i: usize = 0;
        while i < self.store.len()
            invariant
                i <= self.store@.len(),
                store@.len() == i,
                forall|k: int| 0 <= k < i ==> (#[trigger] store@[k])@ == self.store@[k]@,
            decreases self.store@.len() - i,
        {
            store.push(self.store[i].clone());
            i += 1;
        }
        assert(token_views(store@) =~= token_views(self.store@));
        Cache { store }
    }
}

} // verus!
