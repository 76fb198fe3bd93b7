//! The waker table of a readiness reactor. A task that waits for a
//! connection registers its waker under the connection's token; when the
//! poller reports tokens ready, the waker of each is taken out of the table
//! and handed back to be woken. Waiting for readiness itself is left to the
//! caller.
use vstd::prelude::*;
use std::collections::HashMap;

verus! {

broadcast use vstd::std_specs::hash::group_hash_axioms;

/// The table that results from handing out the wakers of `tokens`, one
/// after the other, from `table`, and the wakers handed out, in order. A
/// token without a waker (never registered, or already handed out) gives
/// nothing.
pub open spec fn take_wakers<W>(table: Map<usize, W>, tokens: Seq<usize>) -> (Map<usize, W>, Seq<W>)
    decreases tokens.len(),
{
    if tokens.len() == 0 {
        (table, Seq::empty())
    } else {
        let (rest, woken) = take_wakers(table, tokens.drop_last());
        let t = tokens.last();
        if rest.contains_key(t) {
            (rest.remove(t), woken.push(rest[t]))
        } else {
            (rest, woken)
        }
    }
}

/// After a poll no reported token has a waker left, and every waker of a
/// token that was not reported stays registered.
pub proof fn law_poll_clears_ready_tokens<W>(table: Map<usize, W>, tokens: Seq<usize>)
    ensures
        take_wakers(table, tokens).0 == table.remove_keys(tokens.to_set()),
    decreases tokens.len(),
{
    if tokens.len() > 0 {
        let init = tokens.drop_last();
        law_poll_clears_ready_tokens(table, init);
        assert(tokens.to_set() =~= init.to_set().insert(tokens.last())) by {
            assert(tokens =~= init.push(tokens.last()));
            init.lemma_push_to_set_commute(tokens.last());
        }
        assert(take_wakers(table, tokens).0 =~= table.remove_keys(tokens.to_set()));
    } else {
        assert(tokens.to_set() =~= Set::<usize>::empty());
        assert(table.remove_keys(Set::<usize>::empty()) =~= table);
    }
}

/// No waker is lost or woken twice by a poll: the wakers handed out and
/// those left registered are as many as were registered before.
pub proof fn law_poll_conserves_wakers<W>(table: Map<usize, W>, tokens: Seq<usize>)
    requires
        table.dom().finite(),
    ensures
        take_wakers(table, tokens).0.dom().finite(),
        take_wakers(table, tokens).1.len() + take_wakers(table, tokens).0.dom().len() == table.dom().len(),
    decreases tokens.len(),
{
    if tokens.len() > 0 {
        law_poll_conserves_wakers(table, tokens.drop_last());
    }
}

/// Wakers are handed out in the order in which their tokens are reported:
/// reporting one more token that still has a waker appends exactly that
/// waker at the end, and takes it out of the table; reporting one that has
/// none changes nothing.
pub proof fn law_poll_wakes_in_report_order<W>(table: Map<usize, W>, tokens: Seq<usize>, token: usize)
    ensures
        ({
            let (rest, woken) = take_wakers(table, tokens);
            &&& rest.contains_key(token) ==> take_wakers(table, tokens.push(token)) == (
                rest.remove(token),
                woken.push(rest[token]),
            )
            &&& !rest.contains_key(token) ==> take_wakers(table, tokens.push(token)) == (rest, woken)
        }),
{
    assert(tokens.push(token).drop_last() =~= tokens);
}

/// When the reported tokens are distinct and all registered, the wakers
/// handed out are those of the tokens, one for each, in report order, and
/// exactly those tokens leave the table.
pub proof fn law_poll_distinct_registered_tokens<W>(table: Map<usize, W>, tokens: Seq<usize>)
    requires
        tokens.no_duplicates(),
        forall|i: int| 0 <= i < tokens.len() ==> table.contains_key(#[trigger] tokens[i]),
    ensures
        take_wakers(table, tokens).1 == Seq::new(tokens.len(), |i: int| table[tokens[i]]),
        take_wakers(table, tokens).0 == table.remove_keys(tokens.to_set()),
    decreases tokens.len(),
{
    law_poll_clears_ready_tokens(table, tokens);
    if tokens.len() > 0 {
        let init = tokens.drop_last();
        let t = tokens.last();
        assert forall|i: int| 0 <= i < init.len() implies table.contains_key(#[trigger] init[i]) by {
            assert(init[i] == tokens[i]);
        }
        assert(init.no_duplicates()) by {
            assert forall|i: int, j: int| 0 <= i < init.len() && 0 <= j < init.len() && i != j implies init[i] != init[j] by {
                assert(init[i] == tokens[i] && init[j] == tokens[j]);
            }
        }
        law_poll_distinct_registered_tokens(table, init);
        law_poll_clears_ready_tokens(table, init);
        let rest = take_wakers(table, init).0;
        assert(table.contains_key(tokens[tokens.len() - 1]));
        assert(!init.to_set().contains(t)) by {
            if init.to_set().contains(t) {
                let j = choose|j: int| 0 <= j < init.len() && init[j] == t;
                assert(tokens[j] == tokens[tokens.len() - 1]);
            }
        }
        assert(rest.contains_key(t));
        assert(rest[t] == table[t]);
        assert(take_wakers(table, tokens).1 =~= Seq::new(tokens.len(), |i: int| table[tokens[i]]));
    }
}

/// Two distinct registered tokens reported one after the other wake their
/// wakers in that order.
pub proof fn law_poll_two_tokens_in_order<W>(table: Map<usize, W>, first: usize, second: usize)
    requires
        first != second,
        table.contains_key(first),
        table.contains_key(second),
    ensures
        take_wakers(table, seq![first, second]).1 == seq![table[first], table[second]],
{
    let s = seq![first, second];
    law_poll_distinct_registered_tokens(table, s);
    assert(Seq::new(s.len(), |i: int| table[s[i]]) =~= seq![table[first], table[second]]);
}

/// A registered waker is woken: registering a waker under a token and then
/// reporting that token hands out exactly that waker and removes it.
pub proof fn law_registered_waker_is_woken<W>(table: Map<usize, W>, token: usize, waker: W)
    ensures
        take_wakers(table.insert(token, waker), seq![token]) == (table.remove(token), seq![waker]),
{
    let s = seq![token];
    let m = table.insert(token, waker);
    assert(s.drop_last() =~= Seq::<usize>::empty());
    assert(take_wakers(m, s.drop_last()) == (m, Seq::<W>::empty()));
    assert(s.last() == token);
    assert(table.insert(token, waker).remove(token) =~= table.remove(token));
    assert(Seq::<W>::empty().push(waker) =~= seq![waker]);
}

/// Tokens of readiness events mapped to the wakers of the tasks that wait
/// for them.
pub struct MioReactor<W> {
    map: HashMap<usize, W>,
}

impl<W> MioReactor<W> {
    /// The registered wakers, by token.
    pub closed spec fn wakers(&self) -> Map<usize, W> {
        self.map@
    }

    /// A reactor with no waker registered.
    pub fn new() -> (r: Self)
        ensures
            r.wakers() == Map::<usize, W>::empty(),
    {
        MioReactor { map: HashMap::new() }
    }

    /// Registers the waker of the task that waits for `token`, replacing
    /// one registered before under that token.
    pub fn register_waker(&mut self, token: usize, waker: W)
        ensures
            final(self).wakers() == old(self).wakers().insert(token, waker),
    {
        self.map.insert(token, waker);
    }

    /// Hands out the wakers of the tokens that the poller reported ready,
    /// in the order of the tokens, and removes them from the table.
    pub fn poll(&mut self, ready_tokens: &Vec<usize>) -> (woken: Vec<W>)
        ensures
            (final(self).wakers(), woken@) == take_wakers(old(self).wakers(), ready_tokens@),
    {
        let mut woken: Vec<W> = Vec::new();
        let mut i: usize = 0;
        while i < ready_tokens.len()
            invariant
                i <= ready_tokens.len(),
                (self.map@, woken@) == take_wakers(old(self).wakers(), ready_tokens@.take(i as int)),
            decreases ready_tokens.len() - i,
        {
            let token = ready_tokens[i];
            proof {
                assert(ready_tokens@.take(i as int + 1).drop_last() =~= ready_tokens@.take(i as int));
            }
            let waker = self.map.remove(&token);
            match waker {
                Some(w) => {
                    woken.push(w);
                },
                None => {},
            }
            i = i + 1;
        }
        assert(ready_tokens@.take(ready_tokens.len() as int) =~= ready_tokens@);
        woken
    }
}

/// Decides whether a socket must be registered with the poller now: only
/// the first call for a socket says so, and it marks the socket registered.
pub fn claim_registration(registered: &mut bool) -> (must_register: bool)
    ensures
        must_register == !*old(registered),
        *final(registered),
{
    if *registered == false {
        *registered = true;
        true
    } else {
        false
    }
}

/// What `claim_registration` answers on each of `k` calls for one socket
/// whose flag starts as `registered`.
pub open spec fn registration_answers(registered: bool, k: nat) -> Seq<bool>
    decreases k,
{
    if k == 0 {
        Seq::empty()
    } else {
        seq![!registered] + registration_answers(true, (k - 1) as nat)
    }
}

/// A socket is registered exactly once: of any number of calls for a socket
/// that starts unregistered, only the first says to register; once
/// registered, no call does.
pub proof fn law_socket_registered_once(k: nat)
    ensures
        registration_answers(false, k).len() == k,
        forall|i: int| 0 <= i < k ==> (#[trigger] registration_answers(false, k)[i] <==> i == 0),
        registration_answers(true, k).len() == k,
        forall|i: int| 0 <= i < k ==> !#[trigger] registration_answers(true, k)[i],
    decreases k,
{
    if k > 0 {
        law_socket_registered_once((k - 1) as nat);
        let rest = registration_answers(true, (k - 1) as nat);
        assert forall|i: int| 0 <= i < k implies (#[trigger] registration_answers(false, k)[i] <==> i == 0) by {
            if i > 0 {
                assert(registration_answers(false, k)[i] == rest[i - 1]);
            }
        }
        assert forall|i: int| 0 <= i < k implies !#[trigger] registration_answers(true, k)[i] by {
            if i > 0 {
                assert(registration_answers(true, k)[i] == rest[i - 1]);
            }
        }
    }
}

/// The token that follows `token`, wrapping around after `usize::MAX`.
pub open spec fn token_after(token: usize) -> usize {
    if token == usize::MAX {
        0
    } else {
        (token + 1) as usize
    }
}

/// The token after `token` is the next one modulo the number of `usize`
/// values, as an atomic `fetch_add(1)` counts.
pub proof fn law_token_after_wraps(token: usize)
    ensures
        token_after(token) as int == (token as int + 1) % (usize::MAX as int + 1),
{
    if token == usize::MAX {
        assert((usize::MAX as int + 1) % (usize::MAX as int + 1) == 0) by (nonlinear_arith);
    } else {
        assert((token as int + 1) % (usize::MAX as int + 1) == token as int + 1) by (nonlinear_arith)
            requires token < usize::MAX;
    }
}

/// The tokens that `n` successive calls of `next_token` give, starting
/// from a source whose upcoming token is `start`.
pub open spec fn issued_tokens(start: usize, n: nat) -> Seq<usize>
    decreases n,
{
    if n == 0 {
        Seq::empty()
    } else {
        seq![start] + issued_tokens(token_after(start), (n - 1) as nat)
    }
}

/// Successive tokens count up by one: as long as the counter does not wrap,
/// `n` calls give `start, start + 1, ..., start + n - 1`, so no token is
/// given twice and, from a fresh source, none is 0.
pub proof fn law_tokens_count_up(start: usize, n: nat)
    requires
        start + n <= usize::MAX + 1,
    ensures
        issued_tokens(start, n).len() == n,
        forall|i: int| 0 <= i < n ==> #[trigger] issued_tokens(start, n)[i] == start + i,
        forall|i: int, j: int|
            0 <= i < j < n ==> #[trigger] issued_tokens(start, n)[i] != #[trigger] issued_tokens(start, n)[j],
    decreases n,
{
    if n > 0 {
        if n > 1 {
            law_tokens_count_up(token_after(start), (n - 1) as nat);
        }
        let rest = issued_tokens(token_after(start), (n - 1) as nat);
        assert forall|i: int| 0 <= i < n implies #[trigger] issued_tokens(start, n)[i] == start + i by {
            if i > 0 {
                assert(issued_tokens(start, n)[i] == rest[i - 1]);
            }
        }
    }
}

/// Source of fresh tokens for new connections, counting up from 1 and
/// wrapping around on overflow as an atomic `fetch_add` does.
pub struct TokenSource {
    next: usize,
}

impl TokenSource {
    /// The token that the next call of `next_token` gives.
    pub closed spec fn upcoming(&self) -> usize {
        self.next
    }

    /// A source whose first token is 1.
    pub fn new() -> (s: Self)
        ensures
            s.upcoming() == 1,
    {
        TokenSource { next: 1 }
    }

    /// Gives the upcoming token and moves on to the one after it.
    pub fn next_token(&mut self) -> (token: usize)
        ensures
            token == old(self).upcoming(),
            final(self).upcoming() == token_after(old(self).upcoming()),
            old(self).upcoming() < usize::MAX ==> final(self).upcoming() == old(self).upcoming() + 1,
            old(self).upcoming() == usize::MAX ==> final(self).upcoming() == 0,
    {
        let token = self.next;
        self.next = self.next.wrapping_add(1);
        token
    }
}

} // verus!
