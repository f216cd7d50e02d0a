//! The hosts' own bookkeeping around asset and network access: which keys
//! name remote URLs, how a key resolves against an asset base, how a web
//! video key splits into its manifest directory and codec string, and the
//! fetch ids a host hands out, cancels and filters completed results by.

use vstd::prelude::*;
use std::collections::HashSet;
use crate::text::{
    chars_of, concat_chars, find, find_in, has_prefix, skip_chars, starts_with, string_of, take_chars,
};

verus! {

broadcast use vstd::std_specs::hash::group_hash_axioms;

/// Whether `key` is a full `http(s)://` URL rather than an asset key.
pub open spec fn is_remote(key: Seq<char>) -> bool {
    starts_with(key, "http://"@) || starts_with(key, "https://"@)
}

/// `s` without its trailing `'/'` characters (`trim_end_matches('/')`).
pub open spec fn trim_trailing_slashes(s: Seq<char>) -> Seq<char>
    decreases s.len(),
{
    if s.len() > 0 && s.last() == '/' {
        trim_trailing_slashes(s.drop_last())
    } else {
        s
    }
}

/// `trim_trailing_slashes` removes exactly the trailing run of `'/'`: the
/// result is a prefix of `s`, everything after it is `'/'`, and it does not
/// itself end in `'/'`.
pub proof fn law_trailing_slashes_removed(s: Seq<char>)
    ensures
        exists|b: int|
            0 <= b <= s.len() && trim_trailing_slashes(s) == s.take(b) && (forall|i: int|
                b <= i < s.len() ==> #[trigger] s[i] == '/'),
        trim_trailing_slashes(s).len() > 0 ==> trim_trailing_slashes(s).last() != '/',
    decreases s.len(),
{
    if s.len() > 0 && s.last() == '/' {
        law_trailing_slashes_removed(s.drop_last());
        let b = choose|b: int|
            0 <= b <= s.drop_last().len() && trim_trailing_slashes(s.drop_last())
                == s.drop_last().take(b) && (forall|i: int|
                b <= i < s.drop_last().len() ==> #[trigger] s.drop_last()[i] == '/');
        assert(s.drop_last().take(b) =~= s.take(b));
        assert forall|i: int| b <= i < s.len() implies #[trigger] s[i] == '/' by {
            if i < s.len() - 1 {
                assert(s[i] == s.drop_last()[i]);
            }
        }
    } else {
        assert(s.take(s.len() as int) =~= s);
    }
}

/// The URL of asset `key` under `base`: `base` without trailing slashes,
/// one `'/'`, then `key`.
pub open spec fn asset_url_of(base: Seq<char>, key: Seq<char>) -> Seq<char> {
    trim_trailing_slashes(base) + seq!['/'] + key
}

/// What a fetch of `key_or_url` asks for: a remote URL as given, anything
/// else as an asset under `base`.
pub open spec fn resolved_url(base: Seq<char>, key_or_url: Seq<char>) -> Seq<char> {
    if is_remote(key_or_url) {
        key_or_url
    } else {
        asset_url_of(base, key_or_url)
    }
}

/// Whether `key` is a full `http(s)://` URL rather than an asset key.
pub fn is_remote_url(key: &str) -> (r: bool)
    ensures
        r == is_remote(key@),
{
    let k = chars_of(key);
    let http = chars_of("http://");
    let https = chars_of("https://");
    has_prefix(&k, &http) || has_prefix(&k, &https)
}

/// The URL of asset `key` under `base`.
pub fn asset_url(base: &str, key: &str) -> (r: String)
    ensures
        r@ == asset_url_of(base@, key@),
{
    let b = chars_of(base);
    let k = chars_of(key);
    let mut end: usize = b.len();
    assert(b@.take(b.len() as int) =~= b@);
    while end > 0 && b[end - 1] == '/'
        invariant
            end <= b.len(),
            trim_trailing_slashes(b@) == trim_trailing_slashes(b@.take(end as int)),
        decreases end,
    {
        assert(b@.take(end as int).drop_last() =~= b@.take(end - 1));
        end = end - 1;
    }
    let mut out = take_chars(&b, end);
    proof {
        if end > 0 {
            assert(b@.take(end as int).last() == b@[end - 1]);
        }
    }
    out.push('/');
    let url = concat_chars(out, &k);
    assert(url@ =~= asset_url_of(base@, key@));
    string_of(url.as_slice())
}

/// What a fetch of `key_or_url` asks for — see `resolved_url`.
pub fn resolve_url(base: &str, key_or_url: &str) -> (r: String)
    ensures
        r@ == resolved_url(base@, key_or_url@),
{
    if is_remote_url(key_or_url) {
        let v = chars_of(key_or_url);
        string_of(v.as_slice())
    } else {
        asset_url(base, key_or_url)
    }
}

/// `key` split at its first `'|'` (`str::split_once('|')`).
pub open spec fn split_at_bar(key: Seq<char>) -> Option<(Seq<char>, Seq<char>)> {
    match find(key, seq!['|']) {
        Some(k) => Some((key.take(k), key.skip(k + 1))),
        None => None,
    }
}

/// A web video key `"{dir}|{codecs}"` split into its manifest directory and
/// its codec string; `None` when it has no `'|'`.
pub fn split_video_key(key: &str) -> (r: Option<(String, String)>)
    ensures
        match split_at_bar(key@) {
            Some((d, c)) => r matches Some(p) && p.0@ == d && p.1@ == c,
            None => r is None,
        },
{
    let k = chars_of(key);
    let mut bar: Vec<char> = Vec::new();
    bar.push('|');
    assert(bar@ =~= seq!['|']);
    match find_in(&k, &bar) {
        Some(at) => {
            let dir = take_chars(&k, at);
            let codecs = skip_chars(&k, at + 1);
            Some((string_of(dir.as_slice()), string_of(codecs.as_slice())))
        },
        None => None,
    }
}

/// One completed fetch: its id and its bytes (`None` when it failed).
pub type FetchResult = (u64, Option<Vec<u8>>);

/// The ids of `results`, in order.
pub open spec fn result_ids(results: Seq<FetchResult>) -> Seq<u64> {
    results.map_values(|r: FetchResult| r.0)
}

/// Which of `results` are delivered when the ids in `cancelled` are
/// dropped: each cancellation swallows the first result with its id.
pub open spec fn delivered(cancelled: Set<u64>, results: Seq<FetchResult>) -> (
    Seq<FetchResult>,
    Set<u64>,
)
    decreases results.len(),
{
    if results.len() == 0 {
        (Seq::empty(), cancelled)
    } else {
        let (prev, left) = delivered(cancelled, results.drop_last());
        let r = results.last();
        if left.contains(r.0) {
            (prev, left.remove(r.0))
        } else {
            (prev.push(r), left)
        }
    }
}

/// A host's fetch ids: handed out in sequence, and the set of ids whose
/// results are to be dropped rather than delivered.
pub struct FetchTracker {
    next_id: u64,
    cancelled: HashSet<u64>,
}

impl FetchTracker {
    /// The next id to hand out.
    pub closed spec fn next(&self) -> u64 {
        self.next_id
    }

    /// The ids whose results are still to be dropped.
    pub closed spec fn cancelled_ids(&self) -> Set<u64> {
        self.cancelled@
    }

    /// A tracker that has handed out nothing and cancelled nothing.
    pub fn new() -> (t: FetchTracker)
        ensures
            t.next() == 0,
            t.cancelled_ids() == Set::<u64>::empty(),
    {
        FetchTracker { next_id: 0, cancelled: HashSet::new() }
    }

    /// The next id to hand out.
    pub fn next_id(&self) -> (r: u64)
        ensures
            r == self.next(),
    {
        self.next_id
    }

    /// Hands out the next id.
    pub fn allocate(&mut self) -> (id: u64)
        requires
            old(self).next() < u64::MAX,
        ensures
            id == old(self).next(),
            final(self).next() == old(self).next() + 1,
            final(self).cancelled_ids() == old(self).cancelled_ids(),
    {
        let id = self.next_id;
        self.next_id = self.next_id + 1;
        id
    }

    /// Marks `id`'s result to be dropped instead of delivered.
    pub fn cancel(&mut self, id: u64)
        ensures
            final(self).next() == old(self).next(),
            final(self).cancelled_ids() == old(self).cancelled_ids().insert(id),
    {
        self.cancelled.insert(id);
    }

    /// Whether `id`'s just-completed result is to be delivered; a cancelled
    /// id's result is dropped, and its cancellation used up.
    pub fn take_delivery(&mut self, id: u64) -> (r: bool)
        ensures
            r == !old(self).cancelled_ids().contains(id),
            final(self).next() == old(self).next(),
            final(self).cancelled_ids() == old(self).cancelled_ids().remove(id),
    {
        !self.cancelled.remove(&id)
    }

    /// The results to deliver out of `results`, in order; each cancelled
    /// id drops its result.
    pub fn filter_completed(&mut self, results: Vec<FetchResult>) -> (r: Vec<FetchResult>)
        ensures
            r@ == delivered(old(self).cancelled_ids(), results@).0,
            final(self).cancelled_ids() == delivered(old(self).cancelled_ids(), results@).1,
            final(self).next() == old(self).next(),
    {
        let ghost cancelled0 = self.cancelled_ids();
        let ghost all = results@;
        let mut out: Vec<FetchResult> = Vec::new();
        let mut rest = results;
        let mut i: usize = 0;
        let n = rest.len();
        assert(all.take(0) =~= Seq::<FetchResult>::empty());
        assert(all.skip(0) =~= all);
        while i < n
            invariant
                n == all.len(),
                i <= n,
                rest@ == all.skip(i as int),
                out@ == delivered(cancelled0, all.take(i as int)).0,
                self.cancelled_ids() == delivered(cancelled0, all.take(i as int)).1,
                self.next() == old(self).next(),
            decreases n - i,
        {
            let r = rest.remove(0);
            assert(r == all[i as int]);
            assert(rest@ =~= all.skip(i + 1));
            assert(all.take(i + 1).drop_last() =~= all.take(i as int));
            if self.take_delivery(r.0) {
                out.push(r);
            }
            i = i + 1;
        }
        assert(all.take(n as int) =~= all);
        out
    }
}

/// `x` is among the ids of `results` exactly when it is among those of all
/// but the last, or is the last's.
proof fn lemma_ids_push(results: Seq<FetchResult>, x: u64)
    requires
        results.len() > 0,
    ensures
        result_ids(results).contains(x) <==> result_ids(results.drop_last()).contains(x)
            || x == results.last().0,
{
    let init = results.drop_last();
    assert(result_ids(results) =~= result_ids(init).push(results.last().0));
    if result_ids(results).contains(x) {
        let j = choose|j: int| 0 <= j < result_ids(results).len() && result_ids(results)[j] == x;
        if j < init.len() {
            assert(result_ids(init)[j] == x);
        }
    }
    if result_ids(init).contains(x) {
        let j = choose|j: int| 0 <= j < result_ids(init).len() && result_ids(init)[j] == x;
        assert(result_ids(results)[j] == x);
    }
    if x == results.last().0 {
        assert(result_ids(results)[results.len() - 1] == x);
    }
}

/// The cancellations still pending after delivering `results` are the
/// given ones minus the ids that occurred.
proof fn lemma_delivered_left(cancelled: Set<u64>, results: Seq<FetchResult>)
    requires
        result_ids(results).no_duplicates(),
    ensures
        forall|x: u64|
            #[trigger] delivered(cancelled, results).1.contains(x) <==> cancelled.contains(x)
                && !result_ids(results).contains(x),
    decreases results.len(),
{
    if results.len() > 0 {
        let init = results.drop_last();
        assert(result_ids(init) =~= result_ids(results).drop_last());
        lemma_delivered_left(cancelled, init);
        assert forall|x: u64|
            #[trigger] delivered(cancelled, results).1.contains(x) <==> cancelled.contains(x)
                && !result_ids(results).contains(x) by {
            lemma_ids_push(results, x);
            let left = delivered(cancelled, init).1;
            let last = results.last();
            assert(delivered(cancelled, results).1 == (if left.contains(last.0) {
                left.remove(last.0)
            } else {
                left
            }));
            assert(delivered(cancelled, results).1.contains(x) <==> left.contains(x) && x
                != last.0);
        }
    }
}

/// The results `delivered` keeps, by membership.
proof fn lemma_delivered_kept(cancelled: Set<u64>, results: Seq<FetchResult>, r: FetchResult)
    requires
        results.len() > 0,
    ensures
        delivered(cancelled, results).0.contains(r) <==> delivered(
            cancelled,
            results.drop_last(),
        ).0.contains(r) || (r == results.last() && !delivered(
            cancelled,
            results.drop_last(),
        ).1.contains(r.0)),
{
    let (prev, left) = delivered(cancelled, results.drop_last());
    let last = results.last();
    if !left.contains(last.0) {
        let now = prev.push(last);
        if now.contains(r) {
            let j = choose|j: int| 0 <= j < now.len() && now[j] == r;
            if j < prev.len() {
                assert(prev[j] == r);
            }
        }
        if prev.contains(r) {
            let j = choose|j: int| 0 <= j < prev.len() && prev[j] == r;
            assert(now[j] == r);
        }
        if r == last {
            assert(now[prev.len() as int] == r);
        }
    }
}

/// A cancelled fetch's result is never delivered: when every id occurs at
/// most once among the results, the delivered ones are exactly those whose
/// id was not cancelled.
pub proof fn law_cancelled_results_are_dropped(cancelled: Set<u64>, results: Seq<FetchResult>)
    requires
        result_ids(results).no_duplicates(),
    ensures
        forall|r: FetchResult|
            #[trigger] delivered(cancelled, results).0.contains(r) <==> results.contains(r)
                && !cancelled.contains(r.0),
    decreases results.len(),
{
    if results.len() > 0 {
        let init = results.drop_last();
        let last = results.last();
        assert(result_ids(init) =~= result_ids(results).drop_last());
        law_cancelled_results_are_dropped(cancelled, init);
        lemma_delivered_left(cancelled, init);
        assert(!result_ids(init).contains(last.0)) by {
            if result_ids(init).contains(last.0) {
                let j = choose|j: int| 0 <= j < result_ids(init).len() && result_ids(init)[j]
                    == last.0;
                assert(result_ids(results)[j] == result_ids(results)[results.len() - 1]);
            }
        }
        assert forall|r: FetchResult|
            #[trigger] delivered(cancelled, results).0.contains(r) <==> results.contains(r)
                && !cancelled.contains(r.0) by {
            lemma_delivered_kept(cancelled, results, r);
            if results.contains(r) && r != last {
                let j = choose|j: int| 0 <= j < results.len() && results[j] == r;
                assert(init[j] == r);
            }
            if init.contains(r) {
                let j = choose|j: int| 0 <= j < init.len() && init[j] == r;
                assert(results[j] == r);
                assert(result_ids(init)[j] == r.0);
            }
            if r == last {
                assert(results[results.len() - 1] == r);
            }
        }
    }
}

} // verus!
