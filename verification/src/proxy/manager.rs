//! The proxy manager: the proxies read from a list, handed out in turn.
use vstd::prelude::*;
use std::sync::atomic::AtomicUsize;
use std::sync::atomic::Ordering;
use crate::text::{chars_of, lines_of, split_lines_of_chars, trailing_newlines_trimmed_len, trim_trailing_newlines};
use crate::proxy::types::{
    Proxy, ProxyView, ProxyParseError, parts_complete, proxy_from_parts, url_parts,
};

verus! {

/// The views of a sequence of proxies.
pub open spec fn proxy_views(ps: Seq<Proxy>) -> Seq<ProxyView> {
    ps.map_values(|p: Proxy| p@)
}

/// The proxies that a sequence of lines describes, each line read as a proxy
/// URL and the lines that describe no proxy left out; `None` where a line
/// names a supported protocol in a URL without host or port.
pub open spec fn proxies_from_lines(lines: Seq<Seq<char>>) -> Option<Seq<ProxyView>>
    decreases lines.len(),
{
    if lines.len() == 0 {
        Some(Seq::empty())
    } else {
        match proxies_from_lines(lines.drop_last()) {
            None => None,
            Some(ps) => {
                let parts = url_parts(lines.last());
                if !parts_complete(parts) {
                    None
                } else {
                    match proxy_from_parts(parts) {
                        Ok(p) => Some(ps.push(p)),
                        Err(_) => Some(ps),
                    }
                }
            },
        }
    }
}

/// The proxies of a proxy list file: its trailing newlines removed, then
/// every line read as a proxy URL (see `proxies_from_lines`).
pub open spec fn proxy_list(contents: Seq<char>) -> Option<Seq<ProxyView>> {
    proxies_from_lines(lines_of(trim_trailing_newlines(contents)))
}

/// The number of consecutive requests that share one proxy when the proxy
/// rotates after every `every` requests; a period of zero is taken as one, a
/// new proxy on every request.
pub open spec fn rotation_period(every: u16) -> int {
    if every == 0 {
        1
    } else {
        every as int
    }
}

/// Hands out proxies in turn from a fixed list.
#[derive(Debug)]
pub struct ProxyManager {
    proxies: Vec<Proxy>,
    index: AtomicUsize,
}

impl ProxyManager {
    /// The proxies this manager hands out, in order.
    pub closed spec fn proxies_view(&self) -> Seq<ProxyView> {
        proxy_views(self.proxies@)
    }

    /// The position in the list of the proxy handed out for `ticket`.
    pub open spec fn ticket_index(&self, ticket: usize) -> int {
        ticket as int % self.proxies_view().len() as int
    }

    /// The proxy handed out for `ticket`: the tickets go round the list.
    pub open spec fn ticket_proxy(&self, ticket: usize) -> ProxyView {
        self.proxies_view()[self.ticket_index(ticket)]
    }

    /// The position in the list of the proxy for request number `request`
    /// when the proxy rotates after every `every` requests: requests
    /// `k * period .. (k + 1) * period - 1` share the `k`-th turn.
    pub open spec fn request_index(&self, request: usize, every: u16) -> int {
        (request as int / rotation_period(every)) % self.proxies_view().len() as int
    }

    /// The proxy for request number `request` when the proxy rotates after
    /// every `every` requests.
    pub open spec fn request_proxy(&self, request: usize, every: u16) -> ProxyView {
        self.proxies_view()[self.request_index(request, every)]
    }

    /// The proxies of this manager.
    pub fn proxies(&self) -> (r: &Vec<Proxy>)
        ensures
            proxy_views(r@) == self.proxies_view(),
    {
        &self.proxies
    }

    /// A manager of the proxies that the text of a proxy list describes (see
    /// `proxy_list`), with its turn counter at zero; `None` where a line names
    /// a supported protocol in a URL without host or port.
    pub fn from_contents(contents: &str) -> (r: Option<ProxyManager>)
        ensures
            r is None <==> proxy_list(contents@) is None,
            r matches Some(m) ==> proxy_list(contents@) == Some(m.proxies_view()),
    {
        let v = chars_of(contents);
        let end = trailing_newlines_trimmed_len(&v, v.len());
        assert(v@.take(v.len() as int) =~= v@);
        let lines = split_lines_of_chars(&v, end);
        let ghost ls = lines_of(trim_trailing_newlines(contents@));
        assert(lines.deep_view() == ls);
        let mut proxies: Vec<Proxy> = Vec::new();
        let mut i: usize = 0;
        assert(ls.take(0) =~= Seq::<Seq<char>>::empty());
        while i < lines.len()
            invariant
                i <= lines.len(),
                lines.deep_view() == ls,
                proxy_list(contents@) == proxies_from_lines(ls),
                proxies_from_lines(ls.take(i as int)) == Some(proxy_views(proxies@)),
            decreases lines.len() - i,
        {
            assert(ls.take(i + 1).drop_last() =~= ls.take(i as int));
            assert(ls.take(i + 1).last() == lines[i as int]@);
            match Proxy::parse(lines[i].as_str()) {
                None => {
                    assert(proxies_from_lines(ls.take(i + 1)) is None);
                    proof {
                        lemma_none_persists(ls, i + 1, ls.len() as int);
                        assert(ls.take(ls.len() as int) =~= ls);
                    }
                    return None;
                },
                Some(Ok(p)) => {
                    let ghost old_ps = proxies@;
                    proxies.push(p);
                    assert(proxy_views(proxies@) =~= proxy_views(old_ps).push(p@));
                },
                Some(Err(_)) => {},
            }
            i = i + 1;
        }
        assert(ls.take(lines.len() as int) =~= ls);
        Some(ProxyManager { proxies, index: AtomicUsize::new(0) })
    }

    /// The proxy handed out for `ticket`.
    pub fn proxy_for_ticket(&self, ticket: usize) -> (r: Proxy)
        requires
            self.proxies_view().len() > 0,
        ensures
            r@ == self.ticket_proxy(ticket),
    {
        let i = ticket % self.proxies.len();
        self.proxies[i].clone()
    }

    /// The proxy for request number `request` when the proxy rotates after
    /// every `every` requests (see `rotation_period` for `every == 0`).
    pub fn proxy_for_request(&self, request: usize, every: u16) -> (r: Proxy)
        requires
            self.proxies_view().len() > 0,
        ensures
            r@ == self.request_proxy(request, every),
    {
        let period: usize = if every == 0 {
            1
        } else {
            every as usize
        };
        self.proxy_for_ticket(request / period)
    }

    /// The proxy for the next request, the proxy rotating after every `every`
    /// requests. The request counter is shared by every holder of this
    /// manager, so which request number a call gets is not known; the proxy
    /// is the one for some request number.
    pub fn next_rotating(&self, every: u16) -> (r: Proxy)
        requires
            self.proxies_view().len() > 0,
        ensures
            exists|t: usize| r@ == self.request_proxy(t, every),
    {
        let t = self.index.fetch_add(1, Ordering::SeqCst);
        self.proxy_for_request(t, every)
    }

    /// The next proxy in turn. The turn counter is shared by every holder of
    /// this manager, so which turn a call gets is not known; the proxy is the
    /// one for some ticket.
    pub fn next(&self) -> (r: Proxy)
        requires
            self.proxies_view().len() > 0,
        ensures
            exists|t: usize| r@ == self.ticket_proxy(t),
    {
        let t = self.index.fetch_add(1, Ordering::SeqCst);
        self.proxy_for_ticket(t)
    }
}

/// Round robin: the ticket after `t` gets the proxy after the one of `t`,
/// the first one again after the last.
pub proof fn lemma_next_ticket_next_proxy(m: &ProxyManager, t: usize)
    requires
        m.proxies_view().len() > 0,
        t < usize::MAX,
    ensures
        m.ticket_index((t + 1) as usize) == (m.ticket_index(t) + 1) % (m.proxies_view().len() as int),
{
    let n = m.proxies_view().len() as int;
    vstd::arithmetic::div_mod::lemma_add_mod_noop_right(1, t as int, n);
    vstd::arithmetic::div_mod::lemma_add_mod_noop(t as int, 1, n);
    if n > 1 {
        vstd::arithmetic::div_mod::lemma_small_mod(1, n as nat);
    }
}

/// Rotation after every `every` requests: the requests of the `k`-th block,
/// `k * period .. (k + 1) * period - 1`, all get the proxy at position
/// `k % len`.
pub proof fn lemma_requests_in_block_share_proxy(m: &ProxyManager, every: u16, k: int, t: usize)
    requires
        m.proxies_view().len() > 0,
        0 <= k,
        k * rotation_period(every) <= t < (k + 1) * rotation_period(every),
    ensures
        m.request_index(t, every) == k % (m.proxies_view().len() as int),
{
    let p = rotation_period(every);
    assert((k + 1) * p == k * p + p) by (nonlinear_arith);
    vstd::arithmetic::div_mod::lemma_fundamental_div_mod_converse(t as int, p, k, t - k * p);
}

/// Rotation after every `every` requests: the first request of the next
/// block gets the proxy after the one of the block before, the first one
/// again after the last.
pub proof fn lemma_next_block_next_proxy(m: &ProxyManager, every: u16, k: int)
    requires
        m.proxies_view().len() > 0,
        0 <= k,
        (k + 1) * rotation_period(every) <= usize::MAX,
    ensures
        m.request_index(((k + 1) * rotation_period(every)) as usize, every) == (m.request_index(
            (k * rotation_period(every)) as usize,
            every,
        ) + 1) % (m.proxies_view().len() as int),
{
    let p = rotation_period(every);
    let n = m.proxies_view().len() as int;
    assert((k + 1) * p == k * p + p) by (nonlinear_arith);
    assert((k + 2) * p == (k + 1) * p + p) by (nonlinear_arith);
    assert(0 <= k * p) by (nonlinear_arith)
        requires
            0 <= k,
            0 < p,
    ;
    lemma_requests_in_block_share_proxy(m, every, k, (k * p) as usize);
    lemma_requests_in_block_share_proxy(m, every, k + 1, ((k + 1) * p) as usize);
    vstd::arithmetic::div_mod::lemma_add_mod_noop(k, 1, n);
    if n > 1 {
        vstd::arithmetic::div_mod::lemma_small_mod(1, n as nat);
    }
    vstd::arithmetic::div_mod::lemma_add_mod_noop_right(1, k, n);
}

/// A positive rotation count is the period itself: `every` consecutive
/// requests share a proxy.
pub proof fn lemma_period_is_the_count(every: u16)
    requires
        every > 0,
    ensures
        rotation_period(every) == every as int,
{
}

/// Rotation after every `every > 0` requests: requests `k * every` to
/// `(k + 1) * every - 1` all get the proxy at position `k % len`, and
/// request `(k + 1) * every` gets the one after it (the first one again
/// after the last).
pub proof fn lemma_rotation_blocks(m: &ProxyManager, every: u16, k: int, t: usize)
    requires
        m.proxies_view().len() > 0,
        every > 0,
        0 <= k,
        k * every <= t < (k + 1) * every,
    ensures
        m.request_index(t, every) == k % (m.proxies_view().len() as int),
        m.request_proxy(t, every) == m.proxies_view()[k % (m.proxies_view().len() as int)],
        (k + 1) * every <= usize::MAX ==> m.request_index(((k + 1) * every) as usize, every)
            == (k + 1) % (m.proxies_view().len() as int),
{
    let n = m.proxies_view().len() as int;
    lemma_requests_in_block_share_proxy(m, every, k, t);
    assert((k + 1) * every == k * every + every) by (nonlinear_arith);
    assert((k + 2) * every == (k + 1) * every + every) by (nonlinear_arith);
    if (k + 1) * every <= usize::MAX {
        lemma_requests_in_block_share_proxy(m, every, k + 1, ((k + 1) * every) as usize);
    }
    vstd::arithmetic::div_mod::lemma_mod_pos_bound(k, n);
}

/// Rotating after every request, or with a period of zero, is plain round
/// robin over the request numbers.
pub proof fn lemma_period_one_is_round_robin(m: &ProxyManager, t: usize)
    requires
        m.proxies_view().len() > 0,
    ensures
        m.request_index(t, 1) == m.ticket_index(t),
        m.request_index(t, 0) == m.ticket_index(t),
{
}

/// Tickets a whole turn apart get the same proxy.
pub proof fn lemma_ticket_period(m: &ProxyManager, t: usize)
    requires
        m.proxies_view().len() > 0,
        t + m.proxies_view().len() <= usize::MAX,
    ensures
        m.ticket_proxy((t + m.proxies_view().len()) as usize) == m.ticket_proxy(t),
{
    let n = m.proxies_view().len() as int;
    vstd::arithmetic::div_mod::lemma_mod_add_multiples_vanish(t as int, n);
}

/// Any run of as many consecutive tickets as there are proxies hands out
/// every proxy of the list: the proxy at position `k` goes with ticket `t + j`.
pub proof fn lemma_turn_covers_all(m: &ProxyManager, t: usize, k: int) -> (j: usize)
    requires
        m.proxies_view().len() > 0,
        t + m.proxies_view().len() <= usize::MAX + 1,
        0 <= k < m.proxies_view().len(),
    ensures
        j < m.proxies_view().len(),
        m.ticket_index((t + j) as usize) == k,
{
    let n = m.proxies_view().len() as int;
    vstd::arithmetic::div_mod::lemma_mod_pos_bound(t as int, n);
    let r = t as int % n;
    let d = k - r + n;
    vstd::arithmetic::div_mod::lemma_mod_pos_bound(d, n);
    let j = (d % n) as usize;
    assert((t + j) as usize == t + j);
    vstd::arithmetic::div_mod::lemma_add_mod_noop(t as int, j as int, n);
    vstd::arithmetic::div_mod::lemma_mod_twice(d, n);
    assert((t as int + j as int) % n == (r + j as int) % n);
    vstd::arithmetic::div_mod::lemma_add_mod_noop_right(r, d, n);
    assert((r + j as int) % n == (k + n) % n);
    vstd::arithmetic::div_mod::lemma_mod_add_multiples_vanish(k, n);
    vstd::arithmetic::div_mod::lemma_small_mod(k as nat, n as nat);
    assert(m.ticket_index((t + j) as usize) == k);
    j
}

/// A final newline added to a proxy list file changes none of its proxies.
pub proof fn lemma_final_newline_ignored(contents: Seq<char>)
    ensures
        proxy_list(contents.push('\n')) == proxy_list(contents),
{
    assert(contents.push('\n').drop_last() =~= contents);
}

/// A list yields at most one proxy per line.
pub proof fn lemma_at_most_one_proxy_per_line(lines: Seq<Seq<char>>)
    ensures
        proxies_from_lines(lines) matches Some(ps) ==> ps.len() <= lines.len(),
    decreases lines.len(),
{
    if lines.len() > 0 {
        lemma_at_most_one_proxy_per_line(lines.drop_last());
    }
}

/// Reading a list in two parts: the proxies of `xs + ys` are those of `xs`
/// followed by those of `ys`, and there are none where either part has none.
pub proof fn lemma_lines_concat(xs: Seq<Seq<char>>, ys: Seq<Seq<char>>)
    ensures
        proxies_from_lines(xs + ys) == match (proxies_from_lines(xs), proxies_from_lines(ys)) {
            (Some(a), Some(b)) => Some(a + b),
            _ => None::<Seq<ProxyView>>,
        },
    decreases ys.len(),
{
    if ys.len() == 0 {
        assert(xs + ys =~= xs);
        if let Some(a) = proxies_from_lines(xs) {
            assert(a + Seq::<ProxyView>::empty() =~= a);
        }
    } else {
        let yl = ys.drop_last();
        lemma_lines_concat(xs, yl);
        assert((xs + ys).drop_last() =~= xs + yl);
        assert((xs + ys).last() == ys.last());
        match (proxies_from_lines(xs), proxies_from_lines(yl)) {
            (Some(a), Some(b)) => {
                let parts = url_parts(ys.last());
                if parts_complete(parts) {
                    if let Ok(p) = proxy_from_parts(parts) {
                        assert((a + b).push(p) =~= a + b.push(p));
                    }
                }
            },
            _ => {},
        }
    }
}

/// A line that describes a proxy adds exactly that proxy at the end.
pub proof fn lemma_proxy_line_appends(xs: Seq<Seq<char>>, l: Seq<char>, p: ProxyView)
    requires
        parts_complete(url_parts(l)),
        proxy_from_parts(url_parts(l)) == Ok::<ProxyView, ProxyParseError>(p),
    ensures
        proxies_from_lines(xs.push(l)) == match proxies_from_lines(xs) {
            Some(ps) => Some(ps.push(p)),
            None => None::<Seq<ProxyView>>,
        },
{
    assert(xs.push(l).drop_last() =~= xs);
}

/// A line that describes no proxy (and is no URL without host or port for a
/// supported protocol) changes nothing, wherever it stands.
pub proof fn lemma_other_line_ignored(xs: Seq<Seq<char>>, l: Seq<char>, ys: Seq<Seq<char>>)
    requires
        parts_complete(url_parts(l)),
        proxy_from_parts(url_parts(l)) is Err,
    ensures
        proxies_from_lines(xs.push(l) + ys) == proxies_from_lines(xs + ys),
{
    assert(xs.push(l).drop_last() =~= xs);
    lemma_lines_concat(xs.push(l), ys);
    lemma_lines_concat(xs, ys);
}

/// Every proxy of a list is the one that some line of it describes.
pub proof fn lemma_proxies_come_from_lines(lines: Seq<Seq<char>>)
    ensures
        proxies_from_lines(lines) matches Some(ps) ==> forall|i: int|
            0 <= i < ps.len() ==> exists|j: int|
                0 <= j < lines.len() && #[trigger] proxy_from_parts(url_parts(lines[j])) == Ok::<
                    ProxyView,
                    ProxyParseError,
                >(#[trigger] ps[i]),
    decreases lines.len(),
{
    if lines.len() > 0 {
        let rest = lines.drop_last();
        lemma_proxies_come_from_lines(rest);
        if let Some(ps) = proxies_from_lines(lines) {
            let qs = proxies_from_lines(rest)->0;
            assert forall|i: int| 0 <= i < ps.len() implies exists|j: int|
                0 <= j < lines.len() && #[trigger] proxy_from_parts(url_parts(lines[j])) == Ok::<
                    ProxyView,
                    ProxyParseError,
                >(#[trigger] ps[i]) by {
                if i < qs.len() {
                    assert(ps[i] == qs[i]);
                    let j = choose|j: int|
                        0 <= j < rest.len() && #[trigger] proxy_from_parts(url_parts(rest[j])) == Ok::<
                            ProxyView,
                            ProxyParseError,
                        >(#[trigger] qs[i]);
                    assert(rest[j] == lines[j]);
                } else {
                    assert(proxy_from_parts(url_parts(lines[lines.len() - 1])) == Ok::<
                        ProxyView,
                        ProxyParseError,
                    >(ps[i]));
                }
            }
        }
    }
}

proof fn lemma_none_persists(ls: Seq<Seq<char>>, i: int, k: int)
    requires
        0 <= i <= k <= ls.len(),
        proxies_from_lines(ls.take(i)) is None,
    ensures
        proxies_from_lines(ls.take(k)) is None,
    decreases k - i,
{
    if i < k {
        assert(ls.take(i + 1).drop_last() =~= ls.take(i));
        lemma_none_persists(ls, i + 1, k);
    }
}

impl Clone for ProxyManager {
    /// A manager of the same proxies, its turn counter starting where this
    /// one's stands.
    fn clone(&self) -> (r: Self)
        ensures
            r.proxies_view() == self.proxies_view(),
    {
        let proxies = self.proxies.clone();
        proof {
            assert(proxy_views(proxies@) =~= proxy_views(self.proxies@));
        }
        ProxyManager { proxies, index: AtomicUsize::new(self.index.load(Ordering::SeqCst)) }
    }
}

} // verus!
