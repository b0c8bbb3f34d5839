//! The URL shortener: a POST of a URL gives back a short URL, and a GET of
//! either one gives back the other.

use vstd::prelude::*;
use crate::hashids::{hashids_encode, IdEncoder};
use crate::kvservice::{GetByKey, KVService, Put};
use crate::uniqueid::{next_count, UniqueIdGen};

verus! {

/// The request methods that the shortener tells apart.
#[derive(Clone, Copy, Debug, PartialEq, Eq, Structural)]
pub enum Method {
    Get,
    Post,
    Other,
}

/// The statuses that the shortener answers with.
#[derive(Clone, Copy, Debug, PartialEq, Eq, Structural)]
pub enum Status {
    /// 200
    Success,
    /// 404
    NotFound,
}

/// A request: its method and its path.
pub struct Request {
    pub method: Method,
    pub path: String,
}

/// A reply: its status and its body.
pub struct Reply {
    pub status: Status,
    pub body: String,
}

impl View for Reply {
    type V = (Status, Seq<char>);

    open spec fn view(&self) -> (Status, Seq<char>) {
        (self.status, self.body@)
    }
}

/// The short URL of id `id` under salt `salt`: a slash, then the code of `id`.
pub open spec fn short_url_of(salt: Seq<char>, id: usize) -> Seq<char> {
    seq!['/'] + hashids_encode(salt, seq![id as u64])
}

/// The store once `url` and its short URL `short` are bound to each other:
/// first `short` to `url`, then `url` to `short`.
pub open spec fn registered(
    store: Map<Seq<char>, Seq<char>>,
    url: Seq<char>,
    short: Seq<char>,
) -> Map<Seq<char>, Seq<char>> {
    store.insert(short, url).insert(url, short)
}

/// The reply to a GET of `url`: what `url` is bound to, or "not found" with an
/// empty body.
pub open spec fn get_reply(store: Map<Seq<char>, Seq<char>>, url: Seq<char>) -> (Status, Seq<char>) {
    if store.contains_key(url) {
        (Status::Success, store[url])
    } else {
        (Status::NotFound, Seq::empty())
    }
}

/// The outcome of a POST of `url` to a store, under salt `salt`, with the
/// counter at `count`: the reply, the store after, and the count after. A URL
/// that the store knows is answered with what it is bound to, and store and
/// count stay. Any other URL is answered with the short URL of id `count`,
/// both are bound to each other, and the count advances by one.
pub open spec fn post_step(
    store: Map<Seq<char>, Seq<char>>,
    salt: Seq<char>,
    count: usize,
    url: Seq<char>,
) -> ((Status, Seq<char>), Map<Seq<char>, Seq<char>>, usize) {
    if store.contains_key(url) {
        ((Status::Success, store[url]), store, count)
    } else {
        let short = short_url_of(salt, count);
        ((Status::Success, short), registered(store, url, short), next_count(count))
    }
}

/// The outcome of POSTs of `urls`, in order: the bodies of the replies, the
/// store after, and the count after.
pub open spec fn post_run(
    store: Map<Seq<char>, Seq<char>>,
    salt: Seq<char>,
    count: usize,
    urls: Seq<Seq<char>>,
) -> (Seq<Seq<char>>, Map<Seq<char>, Seq<char>>, usize)
    decreases urls.len(),
{
    if urls.len() == 0 {
        (Seq::empty(), store, count)
    } else {
        let (bodies, mid, mid_count) = post_run(store, salt, count, urls.drop_last());
        let (reply, after, after_count) = post_step(mid, salt, mid_count, urls.last());
        (bodies.push(reply.1), after, after_count)
    }
}

/// The shortener: its store, its source of ids and its encoder.
pub struct UrlShortener {
    pub kv_service: KVService,
    pub unique_id_gen: UniqueIdGen,
    pub hash_ids: IdEncoder,
}

impl UrlShortener {
    /// A shortener over `kv_service` and `unique_id_gen`, whose encoder has the
    /// salt "Arbitrary string".
    pub fn new(kv_service: KVService, unique_id_gen: UniqueIdGen) -> (s: UrlShortener)
        ensures
            s.kv_service == kv_service,
            s.unique_id_gen == unique_id_gen,
            s.hash_ids.salt@ == "Arbitrary string"@,
    {
        let hash_ids = IdEncoder::with_salt("Arbitrary string");
        UrlShortener { kv_service, unique_id_gen, hash_ids }
    }

    /// The short URL of id `id`: a slash followed by the code of `id`.
    pub fn short_url(&self, id: usize) -> (short: String)
        ensures
            short@ == short_url_of(self.hash_ids.salt@, id),
            short@ == seq!['/'] + hashids_encode(self.hash_ids.salt@, seq![id as u64]),
            short@.len() >= 2,
            short@[0] == '/',
    {
        let ids: Vec<u64> = vec![id as u64];
        let code = self.hash_ids.encode(ids.as_slice());
        assert(ids@ == seq![id as u64]);
        let mut short = "/".to_owned();
        proof {
            reveal_strlit("/");
        }
        short.append(code.as_str());
        short
    }

    /// Answers a GET of `url`: what `url` is bound to, or "not found".
    pub fn lookup(&self, url: String) -> (r: Reply)
        ensures
            r@ == get_reply(self.kv_service@, url@),
            self.kv_service@.contains_key(url@) ==> r.status == Status::Success
                && r.body@ == self.kv_service@[url@],
            !self.kv_service@.contains_key(url@) ==> r.status == Status::NotFound
                && r.body@.len() == 0,
    {
        match self.kv_service.call_get(GetByKey(url)) {
            Some(found) => Reply { status: Status::Success, body: found },
            None => Reply { status: Status::NotFound, body: String::new() },
        }
    }

    /// Binds the new short URL of id `id` and `url` to each other, and answers
    /// with the short URL.
    pub fn shorten_with_id(&mut self, url: String, id: usize) -> (r: Reply)
        ensures
            r@ == (Status::Success, short_url_of(old(self).hash_ids.salt@, id)),
            final(self).kv_service@ == registered(old(self).kv_service@, url@, r.body@),
            final(self).hash_ids == old(self).hash_ids,
            final(self).unique_id_gen == old(self).unique_id_gen,
    {
        let short = self.short_url(id);
        self.kv_service.call_put(Put::new(short.clone(), url.clone()));
        self.kv_service.call_put(Put::new(url, short.clone()));
        Reply { status: Status::Success, body: short }
    }

    /// Answers a POST of `url`: a known URL gets what it is bound to; any
    /// other gets the short URL of the next id from the counter, and the two are bound
    /// to each other.
    pub fn shorten(&mut self, url: String) -> (r: Reply)
        ensures
            (r@, final(self).kv_service@, final(self).unique_id_gen.count()) == post_step(
                old(self).kv_service@,
                old(self).hash_ids.salt@,
                old(self).unique_id_gen.count(),
                url@,
            ),
            final(self).hash_ids == old(self).hash_ids,
    {
        match self.kv_service.call_get(GetByKey(url.clone())) {
            Some(found) => Reply { status: Status::Success, body: found },
            None => {
                let id = self.unique_id_gen.next_id();
                self.shorten_with_id(url, id)
            },
        }
    }

    /// Answers a request: a POST shortens its path, a GET looks its path up,
    /// and any other method is "not found".
    pub fn call(&mut self, req: Request) -> (r: Reply)
        ensures
            final(self).hash_ids == old(self).hash_ids,
            match req.method {
                Method::Post => (r@, final(self).kv_service@, final(self).unique_id_gen.count())
                    == post_step(
                    old(self).kv_service@,
                    old(self).hash_ids.salt@,
                    old(self).unique_id_gen.count(),
                    req.path@,
                ),
                Method::Get => r@ == get_reply(old(self).kv_service@, req.path@)
                    && final(self).kv_service@ == old(self).kv_service@
                    && final(self).unique_id_gen == old(self).unique_id_gen,
                Method::Other => r@ == (Status::NotFound, Seq::<char>::empty())
                    && final(self).kv_service@ == old(self).kv_service@
                    && final(self).unique_id_gen == old(self).unique_id_gen,
            },
    {
        let Request { method, path } = req;
        match method {
            Method::Post => self.shorten(path),
            Method::Get => self.lookup(path),
            Method::Other => Reply { status: Status::NotFound, body: String::new() },
        }
    }
}


/// A GET of a URL right after its POST is answered just as the POST was: with
/// the URL's new short URL, or with what the URL was already bound to.
pub proof fn lemma_get_after_post(
    store: Map<Seq<char>, Seq<char>>,
    salt: Seq<char>,
    count: usize,
    url: Seq<char>,
)
    ensures
        get_reply(post_step(store, salt, count, url).1, url) == post_step(store, salt, count, url).0,
{
}

/// After a POST of a URL that the store did not know, a GET of the short URL
/// it was answered with gives back the URL.
pub proof fn lemma_get_short_after_post(
    store: Map<Seq<char>, Seq<char>>,
    salt: Seq<char>,
    count: usize,
    url: Seq<char>,
)
    requires
        !store.contains_key(url),
    ensures
        get_reply(post_step(store, salt, count, url).1, post_step(store, salt, count, url).0.1)
            == (Status::Success, url),
{
}

/// A second POST of the same URL is answered as the first was, and changes
/// neither the store nor the count.
pub proof fn lemma_post_idempotent(
    store: Map<Seq<char>, Seq<char>>,
    salt: Seq<char>,
    count: usize,
    url: Seq<char>,
)
    ensures
        ({
            let (reply1, store1, count1) = post_step(store, salt, count, url);
            post_step(store1, salt, count1, url) == (reply1, store1, count1)
        }),
{
}

/// A POST loses no key: every key the store knew is still bound, and every
/// key other than the URL and its short URL keeps its value.
pub proof fn lemma_post_keeps_bindings(
    store: Map<Seq<char>, Seq<char>>,
    salt: Seq<char>,
    count: usize,
    url: Seq<char>,
    key: Seq<char>,
)
    ensures
        ({
            let (reply, after, _after_count) = post_step(store, salt, count, url);
            &&& store.contains_key(key) ==> after.contains_key(key)
            &&& key != url && key != reply.1 ==> get_reply(after, key) == get_reply(store, key)
        }),
{
}

/// Every POST is answered with success, and the count advances exactly where
/// the URL was new.
pub proof fn lemma_post_succeeds(
    store: Map<Seq<char>, Seq<char>>,
    salt: Seq<char>,
    count: usize,
    url: Seq<char>,
)
    ensures
        post_step(store, salt, count, url).0.0 == Status::Success,
        post_step(store, salt, count, url).2 == if store.contains_key(url) {
            count
        } else {
            next_count(count)
        },
{
}

/// POSTs of distinct URLs that the store does not know, none of them a short
/// URL, get the short URLs of consecutive ids, and at the end each of those
/// short URLs still maps back to its URL and each URL to its short URL; no
/// other new key appears. This holds where distinct ids have distinct short
/// URLs and the counter does not wrap.
pub proof fn lemma_short_urls_map_back(
    store: Map<Seq<char>, Seq<char>>,
    salt: Seq<char>,
    count: usize,
    urls: Seq<Seq<char>>,
)
    requires
        forall|a: usize, b: usize|
            #![trigger short_url_of(salt, a), short_url_of(salt, b)]
            a != b ==> short_url_of(salt, a) != short_url_of(salt, b),
        forall|i: int, id: usize|
            #![trigger urls[i], short_url_of(salt, id)]
            0 <= i < urls.len() ==> urls[i] != short_url_of(salt, id),
        forall|i: int, j: int|
            #![trigger urls[i], urls[j]]
            0 <= i < urls.len() && 0 <= j < urls.len() && i != j ==> urls[i] != urls[j],
        forall|i: int| 0 <= i < urls.len() ==> !store.contains_key(#[trigger] urls[i]),
        count + urls.len() <= usize::MAX,
    ensures
        ({
            let (bodies, after, after_count) = post_run(store, salt, count, urls);
            &&& after_count == count + urls.len()
            &&& bodies.len() == urls.len()
            &&& forall|i: int|
                0 <= i < urls.len() ==> #[trigger] bodies[i] == short_url_of(salt, (count + i) as usize)
            &&& forall|i: int|
                0 <= i < urls.len() ==> get_reply(after, #[trigger] bodies[i]) == (Status::Success, urls[i])
            &&& forall|i: int|
                0 <= i < urls.len() ==> get_reply(after, #[trigger] urls[i]) == (Status::Success, bodies[i])
            &&& forall|k: Seq<char>|
                #![trigger after.contains_key(k)]
                !store.contains_key(k) && (forall|i: int| 0 <= i < urls.len() ==> k != #[trigger] urls[i] && k != bodies[i])
                    ==> !after.contains_key(k)
        }),
    decreases urls.len(),
{
    let n = urls.len();
    if n > 0 {
        let prefix = urls.drop_last();
        assert forall|i: int| 0 <= i < prefix.len() implies #[trigger] prefix[i] == urls[i] by {}
        assert forall|i: int, id: usize|
            #![trigger prefix[i], short_url_of(salt, id)]
            0 <= i < prefix.len() implies prefix[i] != short_url_of(salt, id) by {
            assert(urls[i] != short_url_of(salt, id));
        }
        assert forall|i: int, j: int|
            #![trigger prefix[i], prefix[j]]
            0 <= i < prefix.len() && 0 <= j < prefix.len() && i != j implies prefix[i] != prefix[j] by {
            assert(urls[i] != urls[j]);
        }
        assert forall|i: int| 0 <= i < prefix.len() implies !store.contains_key(#[trigger] prefix[i]) by {
            assert(!store.contains_key(urls[i]));
        }
        lemma_short_urls_map_back(store, salt, count, prefix);
        let (bodies0, mid, mid_count) = post_run(store, salt, count, prefix);
        let u = urls[n - 1];
        let s = short_url_of(salt, mid_count);
        assert(mid_count == count + (n - 1));
        // the last URL is new to the store in the middle
        assert forall|i: int| 0 <= i < prefix.len() implies u != #[trigger] prefix[i] && u != bodies0[i] by {
            assert(urls[i] != urls[n - 1]);
            assert(bodies0[i] == short_url_of(salt, (count + i) as usize));
            assert(u != short_url_of(salt, (count + i) as usize));
        }
        assert(!mid.contains_key(u));
        assert(mid_count < usize::MAX);
        assert(next_count(mid_count) == count + n);
        let (bodies, after, after_count) = post_run(store, salt, count, urls);
        assert(after == registered(mid, u, s));
        assert(bodies == bodies0.push(s));
        assert forall|i: int| 0 <= i < n implies #[trigger] bodies[i] == short_url_of(salt, (count + i) as usize) by {
            if i < n - 1 {
                assert(bodies[i] == bodies0[i]);
            }
        }
        assert forall|i: int| 0 <= i < n - 1 implies bodies[i] != u && bodies[i] != s && urls[i] != u
            && urls[i] != s by {
            assert(bodies[i] == bodies0[i]);
            assert(bodies0[i] == short_url_of(salt, (count + i) as usize));
            assert(u != short_url_of(salt, (count + i) as usize));
            assert((count + i) as usize != mid_count);
            assert(urls[i] != urls[n - 1]);
            assert(urls[i] != short_url_of(salt, mid_count));
            assert(prefix[i] == urls[i]);
        }
        assert forall|i: int| 0 <= i < n implies get_reply(after, #[trigger] bodies[i]) == (Status::Success, urls[i]) by {
            if i < n - 1 {
                assert(bodies[i] == bodies0[i]);
                assert(prefix[i] == urls[i]);
                assert(get_reply(mid, bodies0[i]) == (Status::Success, prefix[i]));
            } else {
                assert(bodies[i] == s);
            }
        }
        assert forall|i: int| 0 <= i < n implies get_reply(after, #[trigger] urls[i]) == (Status::Success, bodies[i]) by {
            if i < n - 1 {
                assert(bodies[i] == bodies0[i]);
                assert(prefix[i] == urls[i]);
                assert(get_reply(mid, prefix[i]) == (Status::Success, bodies0[i]));
            }
        }
        assert forall|k: Seq<char>|
            !store.contains_key(k) && (forall|i: int| 0 <= i < urls.len() ==> k != #[trigger] urls[i] && k != bodies[i])
            implies !after.contains_key(k) by {
            assert(k != urls[n - 1] && k != bodies[n - 1]);
            assert forall|i: int| 0 <= i < prefix.len() implies k != #[trigger] prefix[i] && k != bodies0[i] by {
                assert(prefix[i] == urls[i]);
                assert(bodies[i] == bodies0[i]);
                assert(k != urls[i] && k != bodies[i]);
            }
        }
    }
}


/// Two shorteners made by `new` encode alike: both have the salt
/// "Arbitrary string", so the same numbers get the same code from either, and
/// with their counters at the same value a POST of a new URL gets the same
/// short URL from either.
pub proof fn lemma_new_shorteners_encode_alike(
    a: UrlShortener,
    b: UrlShortener,
    ids: Seq<u64>,
    id: usize,
)
    requires
        a.hash_ids.salt@ == "Arbitrary string"@,
        b.hash_ids.salt@ == "Arbitrary string"@,
    ensures
        hashids_encode(a.hash_ids.salt@, ids) == hashids_encode(b.hash_ids.salt@, ids),
        short_url_of(a.hash_ids.salt@, id) == short_url_of(b.hash_ids.salt@, id),
{
}


/// A GET is answered by what the store holds: a path the store binds gets
/// success and the value bound to it, and a path the store does not hold gets
/// "not found" with an empty body, whatever the path.
pub proof fn lemma_get_reply_by_store(store: Map<Seq<char>, Seq<char>>, path: Seq<char>)
    ensures
        store.contains_key(path) ==> get_reply(store, path).0 == Status::Success
            && get_reply(store, path).1 == store[path],
        !store.contains_key(path) ==> get_reply(store, path).0 == Status::NotFound
            && get_reply(store, path).1.len() == 0,
        get_reply(store, path).0 == Status::Success <==> store.contains_key(path),
{
}

/// The short URL of an id is a slash followed by the hashids code of exactly
/// that id.
pub proof fn lemma_short_url_is_code_of_id(salt: Seq<char>, id: usize)
    ensures
        short_url_of(salt, id).len() == hashids_encode(salt, seq![id as u64]).len() + 1,
        short_url_of(salt, id)[0] == '/',
        short_url_of(salt, id).subrange(1, short_url_of(salt, id).len() as int)
            == hashids_encode(salt, seq![id as u64]),
{
    let code = hashids_encode(salt, seq![id as u64]);
    assert(short_url_of(salt, id).subrange(1, short_url_of(salt, id).len() as int) =~= code);
}

/// Where the hashids codes of distinct single numbers differ, distinct ids
/// get distinct short URLs.
pub proof fn lemma_distinct_ids_distinct_short_urls(salt: Seq<char>, a: usize, b: usize)
    requires
        forall|x: u64, y: u64|
            #![trigger hashids_encode(salt, seq![x]), hashids_encode(salt, seq![y])]
            x != y ==> hashids_encode(salt, seq![x]) != hashids_encode(salt, seq![y]),
        a != b,
    ensures
        short_url_of(salt, a) != short_url_of(salt, b),
{
    lemma_short_url_is_code_of_id(salt, a);
    lemma_short_url_is_code_of_id(salt, b);
    assert((a as u64) != (b as u64));
    assert(hashids_encode(salt, seq![a as u64]) != hashids_encode(salt, seq![b as u64]));
}

} // verus!
