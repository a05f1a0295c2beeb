//! The manager: which refresh loops a set of providers calls for, whether the
//! cache is served to other processes, and what a query of the cache answers.

use vstd::prelude::*;
use crate::cache::{distinct_ids, latest_by_id, listed_tokens, lookup, token_views, Cache};
use crate::provider::Provider;
use crate::token::Token;

verus! {

/// One refresh loop to run: a credential and the endpoint it is refreshed at.
#[derive(Debug)]
pub struct RefreshJob {
    /// The name of the provider, for diagnostics.
    pub provider: String,
    /// The provider's base endpoint.
    pub url: String,
    /// The credential.
    pub api_key: String,
}

/// A [`RefreshJob`] as plain text.
pub struct RefreshJobView {
    pub provider: Seq<char>,
    pub url: Seq<char>,
    pub api_key: Seq<char>,
}

impl View for RefreshJob {
    type V = RefreshJobView;

    open spec fn view(&self) -> RefreshJobView {
        RefreshJobView { provider: self.provider@, url: self.url@, api_key: self.api_key@ }
    }
}

/// The plain contents of a run of jobs.
pub open spec fn job_views(jobs: Seq<RefreshJob>) -> Seq<RefreshJobView> {
    jobs.map_values(|j: RefreshJob| j@)
}

/// The jobs of one provider: one for each credential, in the credentials'
/// order.
pub open spec fn provider_jobs(name: Seq<char>, url: Seq<char>, keys: Seq<Seq<char>>) -> Seq<
    RefreshJobView,
> {
    Seq::new(keys.len(), |i: int| RefreshJobView { provider: name, url, api_key: keys[i] })
}

/// The jobs of a run of providers: those of each provider, in the providers'
/// order.
pub open spec fn all_jobs(providers: Seq<Box<dyn Provider>>) -> Seq<RefreshJobView>
    decreases providers.len(),
{
    if providers.len() == 0 {
        Seq::empty()
    } else {
        all_jobs(providers.drop_last()) + provider_jobs(
            providers.last().name_text(),
            providers.last().url_text(),
            providers.last().key_texts(),
        )
    }
}

/// The number of credentials of a run of providers.
pub open spec fn total_credentials(providers: Seq<Box<dyn Provider>>) -> nat
    decreases providers.len(),
{
    if providers.len() == 0 {
        0
    } else {
        total_credentials(providers.drop_last()) + providers.last().key_texts().len()
    }
}

/// There is one job for each credential of each provider.
pub proof fn lemma_one_job_per_credential(providers: Seq<Box<dyn Provider>>)
    ensures
        all_jobs(providers).len() == total_credentials(providers),
    decreases providers.len(),
{
    if providers.len() > 0 {
        lemma_one_job_per_credential(providers.drop_last());
    }
}

/// Owns the configuration of a run: the providers, the port on which the
/// cache is served, and the interval between two refreshes of a credential.
pub struct TokenManager {
    providers: Vec<Box<dyn Provider>>,
    listen_port: u16,
    token_refresh_seconds: u64,
}

impl TokenManager {
    /// The providers, in their order.
    pub closed spec fn providers(&self) -> Seq<Box<dyn Provider>> {
        self.providers@
    }

    /// The port on which the cache is served; 0 where it is not served.
    pub closed spec fn port(&self) -> u16 {
        self.listen_port
    }

    /// The seconds between two refreshes of a credential.
    pub closed spec fn refresh_seconds(&self) -> u64 {
        self.token_refresh_seconds
    }

    /// A manager of these providers. With `listen_port` 0 the cache is not
    /// served.
    pub fn new(providers: Vec<Box<dyn Provider>>, listen_port: u16, token_refresh_seconds: u64) -> (r: TokenManager)
        ensures
            r.providers() == providers@,
            r.port() == listen_port,
            r.refresh_seconds() == token_refresh_seconds,
    {
        TokenManager { providers, listen_port, token_refresh_seconds }
    }

    /// The port on which the cache is served; 0 where it is not served.
    pub fn listen_port(&self) -> (r: u16)
        ensures
            r == self.port(),
    {
        self.listen_port
    }

    /// The seconds between two refreshes of a credential.
    pub fn token_refresh_seconds(&self) -> (r: u64)
        ensures
            r == self.refresh_seconds(),
    {
        self.token_refresh_seconds
    }

    /// Whether the cache is served to other processes: only where a port
    /// other than 0 was configured.
    pub fn serves_queries(&self) -> (r: bool)
        ensures
            r == (self.port() > 0),
    {
        self.listen_port > 0
    }

    /// The refresh loops to run: one for each credential of each provider,
    /// in the order of the providers and of their credentials. A provider
    /// without credentials contributes none.
    pub fn jobs(&self) -> (r: Vec<RefreshJob>)
        ensures
            job_views(r@) == all_jobs(self.providers()),
            r@.len() == total_credentials(self.providers()),
    {
        let mut jobs: Vec<RefreshJob> = Vec::new();
        let mut i: usize = 0;
        assert(self.providers@.take(0) =~= Seq::<Box<dyn Provider>>::empty());
        assert(job_views(jobs@) =~= all_jobs(self.providers@.take(0)));
        while i < self.providers.len()
            invariant
                i <= self.providers@.len(),
                job_views(jobs@) == all_jobs(self.providers@.take(i as int)),
            decreases self.providers@.len() - i,
        {
            let provider = &self.providers[i];
            let keys = provider.api_keys();
            let ghost done = all_jobs(self.providers@.take(i as int));
            let ghost own = provider_jobs(
                provider.name_text(),
                provider.url_text(),
                provider.key_texts(),
            );
            let mut k: usize = 0;
            assert(job_views(jobs@) =~= done + own.take(0));
            while k < keys.len()
                invariant
                    k <= keys@.len(),
                    keys@.len() == provider.key_texts().len(),
                    forall|n: int| 0 <= n < keys@.len() ==> (#[trigger] keys@[n])@
                        == provider.key_texts()[n],
                    own == provider_jobs(
                        provider.name_text(),
                        provider.url_text(),
                        provider.key_texts(),
                    ),
                    job_views(jobs@) == done + own.take(k as int),
                decreases keys@.len() - k,
            {
                let job = RefreshJob {
                    provider: provider.name(),
                    url: provider.url(),
                    api_key: keys[k].clone(),
                };
                proof {
                    assert(job@ == own[k as int]);
                    assert(job_views(jobs@.push(job)) =~= job_views(jobs@).push(job@));
                    assert(own.take(k + 1) =~= own.take(k as int).push(own[k as int]));
                    assert(done + own.take(k + 1) =~= (done + own.take(k as int)).push(
                        own[k as int],
                    ));
                }
                jobs.push(job);
                k += 1;
            }
            proof {
                assert(own.take(k as int) =~= own);
                let next = self.providers@.take(i + 1);
                assert(next.drop_last() =~= self.providers@.take(i as int));
                assert(next.last() == self.providers@[i as int]);
            }
            i += 1;
        }
        proof {
            assert(self.providers@.take(i as int) =~= self.providers@);
            lemma_one_job_per_credential(self.providers@);
            assert(job_views(jobs@).len() == jobs@.len());
        }
        jobs
    }
}

/// The answer to a query of the cache.
#[derive(Debug)]
pub enum QueryReply {
    /// Every token held, one for each identity.
    Tokens(Vec<Token>),
    /// The token of the identity that was asked for.
    Found(Token),
    /// Nothing is held for the identity that was asked for.
    NotFound,
}

impl QueryReply {
    /// The HTTP status that goes with the answer: 404 where nothing was
    /// found, 200 otherwise.
    pub open spec fn status_code(&self) -> u16 {
        if self is NotFound {
            404
        } else {
            200
        }
    }

    /// The HTTP status that goes with the answer: 404 where nothing was
    /// found, 200 otherwise.
    pub fn status(&self) -> (r: u16)
        ensures
            r == self.status_code(),
    {
        match self {
            QueryReply::NotFound => 404,
            _ => 200,
        }
    }
}

/// Answers a query for all tokens: one token for each identity held, in no
/// particular order.
pub fn get_tokens(cache: &Cache) -> (r: QueryReply)
    ensures
        r matches QueryReply::Tokens(tokens) && distinct_ids(token_views(tokens@)) && latest_by_id(
            token_views(tokens@),
        ) == cache@ && tokens@.len() == cache@.len(),
        r.status_code() == 200,
{
    let entries = cache.clone().list();
    let mut tokens: Vec<Token> = Vec::new();
    let mut i: usize = 0;
    while i < entries.len()
        invariant
            i <= entries@.len(),
            tokens@.len() == i,
            forall|k: int| 0 <= k < i ==> (#[trigger] tokens@[k])@ == entries@[k].1@,
        decreases entries@.len() - i,
    {
        tokens.push(entries[i].1.clone());
        i += 1;
    }
    assert(token_views(tokens@) =~= listed_tokens(entries@));
    QueryReply::Tokens(tokens)
}

/// Answers a query for the token of one identity.
pub fn get_token(id: &str, cache: &Cache) -> (r: QueryReply)
    ensures
        match lookup(cache@, id@) {
            Some(token) => r matches QueryReply::Found(found) && found@ == token,
            None => r is NotFound,
        },
        r.status_code() == if cache@.contains_key(id@) { 200u16 } else { 404u16 },
{
    match cache.get(id) {
        Some(token) => QueryReply::Found(token),
        None => QueryReply::NotFound,
    }
}

} // verus!
