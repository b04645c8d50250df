use std::collections::VecDeque;

use vstd::prelude::*;

verus! {

/// Most signatures a player's cache holds (vanilla: 128).
pub const MAX_CACHED_SIGNATURES: usize = 128;

/// Most signatures a player's last-seen list holds (vanilla: 20).
pub const MAX_PREVIOUS_MESSAGES: usize = 20;

/// The signatures of the messages a player has last seen, oldest first.
#[derive(Clone)]
pub struct LastSeen(pub Vec<Vec<u8>>);

/// A reference to a previously seen message: an index into the recipient's cache plus one, or
/// id 0 with the full signature.
#[derive(Debug)]
pub struct PreviousMessage {
    pub id: i32,
    pub signature: Option<Vec<u8>>,
}

/// A player's cache of message signatures.
pub struct MessageCache {
    /// At most 128 cached message signatures, most recent first. Must match the client's cache.
    pub full_cache: VecDeque<Vec<u8>>,
    /// At most 20 signatures of messages last seen by this player, most recent last.
    pub last_seen: LastSeen,
}

/// The byte strings held by a sequence of vectors.
pub open spec fn sigs_view(v: Seq<Vec<u8>>) -> Seq<Seq<u8>> {
    v.map_values(|s: Vec<u8>| s@)
}

/// The first position of `sig` in `cache`.
pub open spec fn first_index_of(cache: Seq<Seq<u8>>, sig: Seq<u8>) -> Option<nat>
    decreases cache.len(),
{
    if cache.len() == 0 {
        None
    } else if cache[0] == sig {
        Some(0)
    } else {
        match first_index_of(cache.drop_first(), sig) {
            Some(i) => Some(i + 1),
            None => None,
        }
    }
}

/// How one signature of a last-seen list is sent to a recipient with the given cache.
pub open spec fn indexed_entry(cache: Seq<Seq<u8>>, sig: Seq<u8>) -> (int, Option<Seq<u8>>) {
    match first_index_of(cache, sig) {
        Some(i) => ((i + 1) as int, None),
        None => (0, Some(sig)),
    }
}

/// A last-seen list as sent to a recipient with the given cache.
pub open spec fn indexed_view(last_seen: Seq<Seq<u8>>, cache: Seq<Seq<u8>>) -> Seq<(int, Option<Seq<u8>>)> {
    last_seen.map_values(|sig: Seq<u8>| indexed_entry(cache, sig))
}

pub open spec fn message_view(m: PreviousMessage) -> (int, Option<Seq<u8>>) {
    (
        m.id as int,
        match m.signature {
            Some(s) => Some(s@),
            None => None,
        },
    )
}

/// A cache after a signature, that the player never saw, has been offered to it: it goes to the
/// oldest end unless already there or the cache is full.
pub open spec fn cache_one(cache: Seq<Seq<u8>>, sig: Seq<u8>) -> Seq<Seq<u8>> {
    if cache.contains(sig) || cache.len() >= MAX_CACHED_SIGNATURES {
        cache
    } else {
        cache.push(sig)
    }
}

/// A cache after `sigs` have been offered to it, the last of them first.
pub open spec fn cache_all(cache: Seq<Seq<u8>>, sigs: Seq<Seq<u8>>) -> Seq<Seq<u8>>
    decreases sigs.len(),
{
    if sigs.len() == 0 {
        cache
    } else {
        cache_all(cache_one(cache, sigs.last()), sigs.drop_last())
    }
}

/// A last-seen list after `sig` was seen: it goes last, and the oldest leaves once 20 are held.
pub open spec fn seen_after(last_seen: Seq<Seq<u8>>, sig: Seq<u8>) -> Seq<Seq<u8>> {
    let kept = if last_seen.len() >= MAX_PREVIOUS_MESSAGES {
        last_seen.drop_first()
    } else {
        last_seen
    };
    kept.push(sig)
}

/// A cache after `sig` was seen: it goes first, and the oldest leave so that at most 128 remain.
pub open spec fn cache_after_seen(cache: Seq<Seq<u8>>, sig: Seq<u8>) -> Seq<Seq<u8>> {
    let kept = if cache.len() >= MAX_CACHED_SIGNATURES {
        cache.subrange(0, MAX_CACHED_SIGNATURES - 1)
    } else {
        cache
    };
    seq![sig] + kept
}

pub fn same_bytes(a: &[u8], b: &[u8]) -> (r: bool)
    ensures
        r == (a@ == b@),
{
    if a.len() != b.len() {
        return false;
    }
    let mut i: usize = 0;
    while i < a.len()
        invariant
            a@.len() == b@.len(),
            i <= a@.len(),
            forall|k: int| 0 <= k < i ==> a@[k] == b@[k],
        decreases a@.len() - i,
    {
        if a[i] != b[i] {
            return false;
        }
        i += 1;
    }
    assert(a@ =~= b@);
    true
}

fn copy_bytes(a: &[u8]) -> (r: Vec<u8>)
    ensures
        r@ == a@,
{
    let mut out: Vec<u8> = Vec::new();
    let mut i: usize = 0;
    while i < a.len()
        invariant
            i <= a@.len(),
            out@ == a@.subrange(0, i as int),
        decreases a@.len() - i,
    {
        out.push(a[i]);
        i += 1;
        assert(out@ =~= a@.subrange(0, i as int));
    }
    assert(out@ =~= a@);
    out
}

proof fn lemma_first_index_found(cache: Seq<Seq<u8>>, sig: Seq<u8>, i: int)
    requires
        0 <= i < cache.len(),
        cache[i] == sig,
        forall|k: int| 0 <= k < i ==> cache[k] != sig,
    ensures
        first_index_of(cache, sig) == Some(i as nat),
    decreases i,
{
    if i > 0 {
        lemma_first_index_found(cache.drop_first(), sig, i - 1);
    }
}

proof fn lemma_first_index_missing(cache: Seq<Seq<u8>>, sig: Seq<u8>)
    requires
        forall|k: int| 0 <= k < cache.len() ==> cache[k] != sig,
    ensures
        first_index_of(cache, sig) is None,
    decreases cache.len(),
{
    if cache.len() > 0 {
        lemma_first_index_missing(cache.drop_first(), sig);
    }
}

/// The first position of `sig` in `cache`.
fn position_in(cache: &VecDeque<Vec<u8>>, sig: &Vec<u8>) -> (r: Option<usize>)
    ensures
        r matches Some(i) ==> first_index_of(sigs_view(cache@), sig@) == Some(i as nat),
        r is None ==> first_index_of(sigs_view(cache@), sig@) is None,
        r is None <==> !sigs_view(cache@).contains(sig@),
        r matches Some(i) ==> i < cache@.len(),
{
    let ghost view = sigs_view(cache@);
    let mut i: usize = 0;
    while i < cache.len()
        invariant
            i <= cache@.len(),
            view == sigs_view(cache@),
            forall|k: int| 0 <= k < i ==> view[k] != sig@,
        decreases cache@.len() - i,
    {
        if same_bytes(cache[i].as_slice(), sig.as_slice()) {
            proof {
                lemma_first_index_found(view, sig@, i as int);
                assert(view[i as int] == sig@);
            }
            return Some(i);
        }
        i += 1;
    }
    proof {
        lemma_first_index_missing(view, sig@);
        assert(!view.contains(sig@));
    }
    None
}

impl LastSeen {
    pub open spec fn view_sigs(&self) -> Seq<Seq<u8>> {
        sigs_view(self.0@)
    }

    /// The signatures, oldest first, taken out of the list.
    pub fn into_vec(self) -> (r: Vec<Vec<u8>>)
        ensures
            r@ == self.0@,
    {
        self.0
    }

    /// The signatures, oldest first.
    pub fn as_ref(&self) -> (r: &Vec<Vec<u8>>)
        ensures
            r@ == self.0@,
    {
        &self.0
    }

    /// The sender's last-seen signatures as sent to `recipient`: each one found in the
    /// recipient's cache is sent as its position plus one; any other is sent in full with id 0.
    pub fn indexed_for(&self, recipient: &MessageCache) -> (r: Vec<PreviousMessage>)
        requires
            recipient.wf(),
        ensures
            r@.map_values(|m: PreviousMessage| message_view(m)) == indexed_view(
                self.view_sigs(),
                sigs_view(recipient.full_cache@),
            ),
    {
        let mut indexed: Vec<PreviousMessage> = Vec::new();
        let mut i: usize = 0;
        while i < self.0.len()
            invariant
                i <= self.0@.len(),
                recipient.wf(),
                indexed@.len() == i,
                forall|k: int|
                    0 <= k < i ==> message_view(#[trigger] indexed@[k]) == indexed_entry(
                        sigs_view(recipient.full_cache@),
                        self.0@[k]@,
                    ),
            decreases self.0@.len() - i,
        {
            let signature = &self.0[i];
            assert(recipient.full_cache@.len() <= MAX_CACHED_SIGNATURES);
            match position_in(&recipient.full_cache, signature) {
                Some(index) => {
                    indexed.push(PreviousMessage { id: 1 + index as i32, signature: None });
                },
                None => {
                    indexed.push(
                        PreviousMessage { id: 0, signature: Some(copy_bytes(signature.as_slice())) },
                    );
                },
            }
            i += 1;
        }
        assert(indexed@.map_values(|m: PreviousMessage| message_view(m)) =~= indexed_view(
            self.view_sigs(),
            sigs_view(recipient.full_cache@),
        ));
        indexed
    }
}

impl MessageCache {
    pub open spec fn wf(&self) -> bool {
        &&& self.full_cache@.len() <= MAX_CACHED_SIGNATURES
        &&& self.last_seen.0@.len() <= MAX_PREVIOUS_MESSAGES
    }

    pub open spec fn cache_view(&self) -> Seq<Seq<u8>> {
        sigs_view(self.full_cache@)
    }

    pub fn new() -> (r: MessageCache)
        ensures
            r.wf(),
            r.cache_view().len() == 0,
            r.last_seen.view_sigs().len() == 0,
    {
        MessageCache {
            full_cache: VecDeque::with_capacity(MAX_CACHED_SIGNATURES),
            last_seen: LastSeen(Vec::new()),
        }
    }

    /// Offers signatures of messages this player never saw, from senders: they are older than
    /// anything in the cache, so each goes to the oldest end, unless already cached or the cache
    /// is full.
    pub fn cache_signatures(&mut self, signatures: &[Vec<u8>])
        requires
            old(self).wf(),
        ensures
            final(self).wf(),
            final(self).cache_view() == cache_all(old(self).cache_view(), sigs_view(signatures@)),
            final(self).last_seen.view_sigs() == old(self).last_seen.view_sigs(),
    {
        let ghost all = sigs_view(signatures@);
        let mut k: usize = signatures.len();
        assert(all.subrange(0, k as int) =~= all);
        while k > 0
            invariant
                k <= signatures@.len(),
                all == sigs_view(signatures@),
                self.wf(),
                self.last_seen.view_sigs() == old(self).last_seen.view_sigs(),
                cache_all(old(self).cache_view(), all) == cache_all(
                    self.cache_view(),
                    all.subrange(0, k as int),
                ),
            decreases k,
        {
            let sig = &signatures[k - 1];
            let ghost before = self.cache_view();
            let ghost rest = all.subrange(0, k as int);
            assert(rest.last() == sig@);
            assert(rest.drop_last() =~= all.subrange(0, k - 1));
            match position_in(&self.full_cache, sig) {
                Some(_) => {},
                None => {
                    if self.full_cache.len() < MAX_CACHED_SIGNATURES {
                        self.full_cache.push_back(copy_bytes(sig.as_slice()));
                        assert(self.cache_view() =~= before.push(sig@));
                    }
                },
            }
            assert(self.cache_view() == cache_one(before, sig@));
            k -= 1;
        }
        assert(all.subrange(0, 0) =~= Seq::<Seq<u8>>::empty());
    }

    /// Records a signature the player has just seen: last in the last-seen list, and first in
    /// the cache.
    pub fn add_seen_signature(&mut self, signature: &[u8])
        requires
            old(self).wf(),
        ensures
            final(self).wf(),
            final(self).last_seen.view_sigs() == seen_after(old(self).last_seen.view_sigs(), signature@),
            final(self).cache_view() == cache_after_seen(old(self).cache_view(), signature@),
    {
        let ghost old_seen = self.last_seen.view_sigs();
        let ghost old_cache = self.cache_view();
        if self.last_seen.0.len() >= MAX_PREVIOUS_MESSAGES {
            self.last_seen.0.remove(0);
            assert(self.last_seen.view_sigs() =~= old_seen.drop_first());
        }
        self.last_seen.0.push(copy_bytes(signature));
        assert(self.last_seen.view_sigs() =~= seen_after(old_seen, signature@));
        assert(old_cache =~= old_cache.subrange(0, self.full_cache@.len() as int));
        while self.full_cache.len() >= MAX_CACHED_SIGNATURES
            invariant
                self.last_seen.view_sigs() == seen_after(old_seen, signature@),
                self.last_seen.0@.len() <= MAX_PREVIOUS_MESSAGES,
                old_cache.len() <= MAX_CACHED_SIGNATURES,
                self.full_cache@.len() <= old_cache.len(),
                old_cache.len() >= MAX_CACHED_SIGNATURES ==> self.full_cache@.len()
                    >= MAX_CACHED_SIGNATURES - 1,
                old_cache.len() < MAX_CACHED_SIGNATURES ==> self.full_cache@.len()
                    == old_cache.len(),
                self.cache_view() == old_cache.subrange(0, self.full_cache@.len() as int),
            decreases self.full_cache@.len(),
        {
            self.full_cache.pop_back();
            assert(self.cache_view() =~= old_cache.subrange(0, self.full_cache@.len() as int));
        }
        let ghost kept = self.cache_view();
        self.full_cache.push_front(copy_bytes(signature));
        assert(self.cache_view() =~= seq![signature@] + kept);
        assert(kept =~= (if old_cache.len() >= MAX_CACHED_SIGNATURES {
            old_cache.subrange(0, MAX_CACHED_SIGNATURES - 1)
        } else {
            old_cache
        }));
    }
}

impl Default for MessageCache {
    fn default() -> (r: MessageCache)
        ensures
            r.wf(),
            r.cache_view().len() == 0,
            r.last_seen.view_sigs().len() == 0,
    {
        MessageCache::new()
    }
}

/// What a player's cache and last-seen list go through.
pub ghost enum CacheEvent {
    /// A signature the player has seen.
    Seen(Seq<u8>),
    /// Signatures of messages the player never saw, offered to the cache.
    Offered(Seq<Seq<u8>>),
}

/// The cache and last-seen list after `events`, in order.
pub open spec fn after_events(
    cache: Seq<Seq<u8>>,
    last_seen: Seq<Seq<u8>>,
    events: Seq<CacheEvent>,
) -> (Seq<Seq<u8>>, Seq<Seq<u8>>)
    decreases events.len(),
{
    if events.len() == 0 {
        (cache, last_seen)
    } else {
        let (c, l) = after_events(cache, last_seen, events.drop_last());
        match events.last() {
            CacheEvent::Seen(sig) => (cache_after_seen(c, sig), seen_after(l, sig)),
            CacheEvent::Offered(sigs) => (cache_all(c, sigs), l),
        }
    }
}

proof fn lemma_cache_all_bounded(cache: Seq<Seq<u8>>, sigs: Seq<Seq<u8>>)
    requires
        cache.len() <= MAX_CACHED_SIGNATURES,
    ensures
        cache_all(cache, sigs).len() <= MAX_CACHED_SIGNATURES,
    decreases sigs.len(),
{
    if sigs.len() > 0 {
        lemma_cache_all_bounded(cache_one(cache, sigs.last()), sigs.drop_last());
    }
}

/// Whatever signatures are seen and offered, in whatever order, a cache holds at most 128 of
/// them and a last-seen list at most 20.
pub proof fn lemma_cache_stays_bounded(
    cache: Seq<Seq<u8>>,
    last_seen: Seq<Seq<u8>>,
    events: Seq<CacheEvent>,
)
    requires
        cache.len() <= MAX_CACHED_SIGNATURES,
        last_seen.len() <= MAX_PREVIOUS_MESSAGES,
    ensures
        after_events(cache, last_seen, events).0.len() <= MAX_CACHED_SIGNATURES,
        after_events(cache, last_seen, events).1.len() <= MAX_PREVIOUS_MESSAGES,
    decreases events.len(),
{
    if events.len() > 0 {
        lemma_cache_stays_bounded(cache, last_seen, events.drop_last());
        let (c, l) = after_events(cache, last_seen, events.drop_last());
        match events.last() {
            CacheEvent::Seen(sig) => {},
            CacheEvent::Offered(sigs) => {
                lemma_cache_all_bounded(c, sigs);
            },
        }
    }
}

/// Two calls of `indexed_for` on the same last-seen list and the same recipient cache give the
/// same messages.
pub proof fn lemma_indexed_for_deterministic(
    last_seen: Seq<Seq<u8>>,
    cache: Seq<Seq<u8>>,
    first: Seq<(int, Option<Seq<u8>>)>,
    second: Seq<(int, Option<Seq<u8>>)>,
)
    requires
        first == indexed_view(last_seen, cache),
        second == indexed_view(last_seen, cache),
    ensures
        first == second,
{
}

/// A player's chat session: its key and the messages counted on it.
pub struct ChatSession {
    pub session_id: u128,
    pub expires_at: i64,
    pub public_key: Vec<u8>,
    pub signature: Vec<u8>,
    pub messages_sent: i32,
    pub messages_received: i32,
    pub signature_cache: Vec<Vec<u8>>,
}

impl ChatSession {
    pub fn new(session_id: u128, expires_at: i64, public_key: Vec<u8>, key_signature: Vec<u8>) -> (r: ChatSession)
        ensures
            r.session_id == session_id,
            r.expires_at == expires_at,
            r.public_key@ == public_key@,
            r.signature@ == key_signature@,
            r.messages_sent == 0,
            r.messages_received == 0,
            r.signature_cache@.len() == 0,
    {
        ChatSession {
            session_id,
            expires_at,
            public_key,
            signature: key_signature,
            messages_sent: 0,
            messages_received: 0,
            signature_cache: Vec::new(),
        }
    }
}

impl Default for ChatSession {
    /// A placeholder session, until the player sets theirs.
    fn default() -> (r: ChatSession)
        ensures
            r.session_id == 0,
            r.expires_at == 0,
            r.public_key@.len() == 0,
            r.signature@.len() == 0,
            r.messages_sent == 0,
            r.messages_received == 0,
            r.signature_cache@.len() == 0,
    {
        ChatSession::new(0, 0, Vec::new(), Vec::new())
    }
}

/// The player's chat mode settings.
#[derive(Debug, Clone, Copy, PartialEq, Eq, Structural)]
pub enum ChatMode {
    /// Chat is enabled for the player.
    Enabled,
    /// The player should only see chat messages from commands.
    CommandsOnly,
    /// All messages should be hidden.
    Hidden,
}

/// A chat mode number outside 0, 1 and 2.
#[derive(Debug, Clone, Copy, PartialEq, Eq, Structural)]
pub struct InvalidChatMode;

impl ChatMode {
    /// The mode a client sends as `value`: 0 enabled, 1 commands only, 2 hidden.
    pub fn try_from(value: i32) -> (r: Result<ChatMode, InvalidChatMode>)
        ensures
            value == 0 ==> r == Ok::<ChatMode, InvalidChatMode>(ChatMode::Enabled),
            value == 1 ==> r == Ok::<ChatMode, InvalidChatMode>(ChatMode::CommandsOnly),
            value == 2 ==> r == Ok::<ChatMode, InvalidChatMode>(ChatMode::Hidden),
            !(0 <= value <= 2) ==> r is Err,
    {
        match value {
            0 => Ok(Self::Enabled),
            1 => Ok(Self::CommandsOnly),
            2 => Ok(Self::Hidden),
            _ => Err(InvalidChatMode),
        }
    }
}

} // verus!
