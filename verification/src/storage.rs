//! Storage of collected handshakes, keyed by (access point, client) session.
//!
//! Each session holds its handshake attempts in insertion order; several
//! partial handshakes may run concurrently for one session, and a key that
//! no existing attempt accepts starts a new one at the tail.

use vstd::prelude::*;

use vstd::pervasive::VecAdditionalExecFns;

use crate::eapol::EapolKey;
use crate::eapol::EapolKeyView;
use crate::handshake::FourWayHandshake;
use crate::handshake::HandshakeView;
use crate::handshake::add_key_reject;
use crate::handshake::add_key_updated;
use crate::handshake::clone_opt_string;
use crate::handshake::empty_handshake;
use crate::handshake::opt_view;
use crate::mac::MacAddress;

verus! {

/// The pair that names a handshake session: access point and client.
#[derive(Hash, Eq, PartialEq, Debug, Clone, Copy)]
pub struct HandshakeSessionKey {
    pub ap_mac: MacAddress,
    pub client_mac: MacAddress,
}

/// One session and its handshake attempts, in insertion order.
#[derive(Debug)]
pub struct SessionEntry {
    pub key: HandshakeSessionKey,
    pub handshakes: Vec<FourWayHandshake>,
}

/// Spec-level image of a [`SessionEntry`].
#[verifier::ext_equal]
pub ghost struct SessionEntryView {
    pub ap: Seq<u8>,
    pub client: Seq<u8>,
    pub handshakes: Seq<HandshakeView>,
}

/// The views of a sequence of handshakes.
pub open spec fn handshake_views(s: Seq<FourWayHandshake>) -> Seq<HandshakeView> {
    s.map_values(|h: FourWayHandshake| h@)
}

impl View for SessionEntry {
    type V = SessionEntryView;

    open spec fn view(&self) -> SessionEntryView {
        SessionEntryView {
            ap: self.key.ap_mac@,
            client: self.key.client_mac@,
            handshakes: handshake_views(self.handshakes@),
        }
    }
}

/// The views of a sequence of session entries.
pub open spec fn entry_views(s: Seq<SessionEntry>) -> Seq<SessionEntryView> {
    s.map_values(|e: SessionEntry| e@)
}

/// All collected handshakes, binned by session.
pub struct HandshakeStorage {
    sessions: Vec<SessionEntry>,
}

impl View for HandshakeStorage {
    type V = Seq<SessionEntryView>;

    closed spec fn view(&self) -> Seq<SessionEntryView> {
        entry_views(self.sessions@)
    }
}

/// Whether an entry belongs to the given session.
pub open spec fn entry_matches(e: SessionEntryView, ap: Seq<u8>, client: Seq<u8>) -> bool {
    e.ap == ap && e.client == client
}

/// The handshake list accepts the key first at position `j`: every earlier
/// attempt rejects it and the attempt at `j` accepts it.
pub open spec fn accepts_at(list: Seq<HandshakeView>, k: EapolKeyView, j: int) -> bool {
    &&& 0 <= j < list.len()
    &&& add_key_reject(list[j], k) is None
    &&& forall|j2: int| 0 <= j2 < j ==> add_key_reject(list[j2], k) is Some
}

/// A handshake with the session identity written into it.  A supplied
/// ESSID replaces the stored one; a missing one leaves it in place, so a
/// complete handshake never loses its ESSID here.
pub open spec fn with_identity(
    h: HandshakeView,
    ap: Seq<u8>,
    client: Seq<u8>,
    essid: Option<Seq<char>>,
) -> HandshakeView {
    HandshakeView {
        mac_ap: Some(ap),
        mac_client: Some(client),
        essid: if essid is Some {
            essid
        } else {
            h.essid
        },
        ..h
    }
}

/// A complete handshake stays complete through an accepted
/// [`HandshakeStorage::add_or_update_handshake`] update: the key fills a
/// slot without clearing derived material, the identity fields are set,
/// and the stored ESSID survives a missing argument.
pub proof fn lemma_update_preserves_complete(
    h: HandshakeView,
    ap: Seq<u8>,
    cl: Seq<u8>,
    k: EapolKeyView,
    essid: Option<Seq<char>>,
)
    requires
        h.complete(),
        add_key_reject(h, k) is None,
    ensures
        with_identity(add_key_updated(h, k), ap, cl, essid).complete(),
{
    reveal(add_key_reject);
    reveal(add_key_updated);
}

/// The outcome of a successful [`HandshakeStorage::add_or_update_handshake`]
/// call.  When the session already has an entry, the first existing attempt
/// that accepts the key is updated; failing that, a fresh handshake that
/// accepts the key is appended to the entry.  When the session is new, a
/// fresh entry with that one handshake is appended.  Either way the session
/// identity, and the ESSID when one is supplied, are written into the
/// touched handshake, and the returned handshake is that one.
pub open spec fn add_or_update_ok(
    pre: Seq<SessionEntryView>,
    post: Seq<SessionEntryView>,
    ap: Seq<u8>,
    cl: Seq<u8>,
    k: EapolKeyView,
    essid: Option<Seq<char>>,
    returned: HandshakeView,
) -> bool {
    if exists|i: int| 0 <= i < pre.len() && #[trigger] entry_matches(pre[i], ap, cl) {
        let i = choose|i: int| 0 <= i < pre.len() && #[trigger] entry_matches(pre[i], ap, cl);
        let list = pre[i].handshakes;
        if exists|j: int| accepts_at(list, k, j) {
            let j = choose|j: int| accepts_at(list, k, j);
            let updated = with_identity(add_key_updated(list[j], k), ap, cl, essid);
            &&& returned == updated
            &&& post =~= pre.update(
                i,
                SessionEntryView { handshakes: list.update(j, updated), ..pre[i] },
            )
        } else if add_key_reject(empty_handshake(), k) is None {
            let updated = with_identity(add_key_updated(empty_handshake(), k), ap, cl, essid);
            &&& returned == updated
            &&& post =~= pre.update(
                i,
                SessionEntryView { handshakes: list.push(updated), ..pre[i] },
            )
        } else {
            false
        }
    } else {
        if add_key_reject(empty_handshake(), k) is None {
            let updated = with_identity(add_key_updated(empty_handshake(), k), ap, cl, essid);
            &&& returned == updated
            &&& post =~= pre.push(SessionEntryView { ap: ap, client: cl, handshakes: seq![updated] })
        } else {
            false
        }
    }
}

/// The outcome of a rejected [`HandshakeStorage::add_or_update_handshake`]
/// call: no existing attempt of the session accepted the key, a fresh
/// handshake rejected it too, and nothing changed beyond the (possibly
/// empty) entry created for a new session.
pub open spec fn add_or_update_err(
    pre: Seq<SessionEntryView>,
    post: Seq<SessionEntryView>,
    ap: Seq<u8>,
    cl: Seq<u8>,
    k: EapolKeyView,
) -> bool {
    &&& forall|i: int, j: int|
        0 <= i < pre.len() && #[trigger] entry_matches(pre[i], ap, cl) && 0 <= j
            < pre[i].handshakes.len() ==> add_key_reject(#[trigger] pre[i].handshakes[j], k)
            is Some
    &&& add_key_reject(empty_handshake(), k) is Some
    &&& if exists|i: int| 0 <= i < pre.len() && #[trigger] entry_matches(pre[i], ap, cl) {
        post == pre
    } else {
        post =~= pre.push(SessionEntryView { ap: ap, client: cl, handshakes: Seq::empty() })
    }
}

/// The number of handshakes over all sessions.
pub open spec fn count_of(s: Seq<SessionEntryView>) -> nat
    decreases s.len(),
{
    if s.len() == 0 {
        0
    } else {
        count_of(s.drop_last()) + s.last().handshakes.len()
    }
}

pub proof fn lemma_count_snoc(s: Seq<SessionEntryView>, i: int)
    requires
        0 <= i < s.len(),
    ensures
        count_of(s.take(i + 1)) == count_of(s.take(i)) + s[i].handshakes.len(),
{
    assert(s.take(i + 1).drop_last() =~= s.take(i));
}

pub proof fn lemma_count_prefix_le(s: Seq<SessionEntryView>, i: int)
    requires
        0 <= i <= s.len(),
    ensures
        count_of(s.take(i)) <= count_of(s),
    decreases s.len() - i,
{
    if i < s.len() {
        lemma_count_snoc(s, i);
        lemma_count_prefix_le(s, i + 1);
    } else {
        assert(s.take(i) =~= s);
    }
}

/// The entries of the given access point, in storage order.
pub open spec fn sessions_for_ap(s: Seq<SessionEntryView>, ap: Seq<u8>) -> Seq<SessionEntryView>
    decreases s.len(),
{
    if s.len() == 0 {
        Seq::empty()
    } else {
        sessions_for_ap(s.drop_last(), ap) + (if s.last().ap == ap {
            seq![s.last()]
        } else {
            Seq::empty()
        })
    }
}

pub proof fn lemma_sessions_for_ap_snoc(s: Seq<SessionEntryView>, ap: Seq<u8>, i: int)
    requires
        0 <= i < s.len(),
    ensures
        sessions_for_ap(s.take(i + 1), ap) == sessions_for_ap(s.take(i), ap) + (if s[i].ap == ap {
            seq![s[i]]
        } else {
            Seq::empty()
        }),
{
    assert(s.take(i + 1).drop_last() =~= s.take(i));
}

/// Some handshake of the given access point is complete.
pub open spec fn has_complete_for_ap(s: Seq<SessionEntryView>, ap: Seq<u8>) -> bool {
    exists|i: int, j: int|
        0 <= i < s.len() && s[i].ap == ap && 0 <= j < s[i].handshakes.len()
            && s[i].handshakes[j].complete()
}

/// Some handshake of the given access point holds message 1.
pub open spec fn has_m1_for_ap(s: Seq<SessionEntryView>, ap: Seq<u8>) -> bool {
    exists|i: int, j: int|
        0 <= i < s.len() && s[i].ap == ap && 0 <= j < s[i].handshakes.len()
            && s[i].handshakes[j].msg1 is Some
}

/// Tests whether any handshake of the list is complete.
fn any_complete(v: &Vec<FourWayHandshake>) -> (r: bool)
    ensures
        r == exists|j: int| 0 <= j < v@.len() && #[trigger] handshake_views(v@)[j].complete(),
{
    let mut j: usize = 0;
    while j < v.len()
        invariant
            j <= v@.len(),
            forall|j2: int| 0 <= j2 < j ==> !((#[trigger] handshake_views(v@)[j2]).complete()),
        decreases v@.len() - j,
    {
        proof {
            assert(handshake_views(v@)[j as int] == v@[j as int]@);
        }
        if v[j].complete() {
            return true;
        }
        j = j + 1;
    }
    false
}

/// Tests whether any handshake of the list holds message 1.
fn any_m1(v: &Vec<FourWayHandshake>) -> (r: bool)
    ensures
        r == exists|j: int| 0 <= j < v@.len() && #[trigger] handshake_views(v@)[j].msg1 is Some,
{
    let mut j: usize = 0;
    while j < v.len()
        invariant
            j <= v@.len(),
            forall|j2: int| 0 <= j2 < j ==> !((#[trigger] handshake_views(v@)[j2]).msg1 is Some),
        decreases v@.len() - j,
    {
        proof {
            assert(handshake_views(v@)[j as int] == v@[j as int]@);
        }
        if v[j].has_m1() {
            return true;
        }
        j = j + 1;
    }
    false
}

/// Copies a handshake list; the copy has the same views.
fn clone_handshake_list(v: &Vec<FourWayHandshake>) -> (r: Vec<FourWayHandshake>)
    ensures
        handshake_views(r@) == handshake_views(v@),
{
    let mut r: Vec<FourWayHandshake> = Vec::new();
    let mut j: usize = 0;
    while j < v.len()
        invariant
            j <= v@.len(),
            r@.len() == j,
            forall|t: int| 0 <= t < j ==> (#[trigger] r@[t])@ == v@[t]@,
        decreases v@.len() - j,
    {
        r.push(v[j].clone());
        j = j + 1;
    }
    proof {
        assert forall|t: int| 0 <= t < v@.len() implies handshake_views(r@)[t] == handshake_views(
            v@,
        )[t] by {
            assert(r@[t]@ == v@[t]@);
        }
        assert(handshake_views(r@) =~= handshake_views(v@));
    }
    r
}

impl Clone for SessionEntry {
    /// The copy has the same view.
    fn clone(&self) -> (r: Self)
        ensures
            r@ == self@,
    {
        let r = SessionEntry { key: self.key, handshakes: clone_handshake_list(&self.handshakes) };
        proof {
            assert(r@ =~= self@);
        }
        r
    }
}

impl HandshakeStorage {
    /// Session keys are pairwise distinct.
    pub open spec fn wf(self) -> bool {
        forall|i: int, j: int|
            0 <= i < j < self@.len() ==> !(#[trigger] self@[i].ap == #[trigger] self@[j].ap
                && self@[i].client == self@[j].client)
    }

    /// An empty store.
    pub fn new() -> (r: Self)
        ensures
            r@.len() == 0,
            r.wf(),
    {
        let r = HandshakeStorage { sessions: Vec::new() };
        proof {
            assert(r@ =~= Seq::<SessionEntryView>::empty());
        }
        r
    }

    /// The number of handshakes over all sessions.
    pub fn count(&self) -> (r: usize)
        requires
            count_of(self@) <= usize::MAX,
        ensures
            r == count_of(self@),
    {
        let mut acc: usize = 0;
        let mut i: usize = 0;
        proof {
            assert(self@.take(0) =~= Seq::<SessionEntryView>::empty());
        }
        while i < self.sessions.len()
            invariant
                i <= self@.len(),
                count_of(self@) <= usize::MAX,
                self@.len() == self.sessions@.len(),
                self@ == entry_views(self.sessions@),
                acc == count_of(self@.take(i as int)),
            decreases self@.len() - i,
        {
            proof {
                lemma_count_snoc(self@, i as int);
                lemma_count_prefix_le(self@, i + 1 as int);
            }
            acc = acc + self.sessions[i].handshakes.len();
            i = i + 1;
        }
        proof {
            assert(self@.take(self@.len() as int) =~= self@);
        }
        acc
    }

    /// A copy of every session and its handshakes.
    pub fn get_handshakes(&self) -> (r: Vec<SessionEntry>)
        ensures
            entry_views(r@) == self@,
    {
        let mut r: Vec<SessionEntry> = Vec::new();
        let mut i: usize = 0;
        while i < self.sessions.len()
            invariant
                i <= self.sessions@.len(),
                r@.len() == i,
                forall|t: int| 0 <= t < i ==> (#[trigger] r@[t])@ == self.sessions@[t]@,
            decreases self.sessions@.len() - i,
        {
            r.push(self.sessions[i].clone());
            i = i + 1;
        }
        proof {
            assert forall|t: int| 0 <= t < self.sessions@.len() implies entry_views(r@)[t]
                == self@[t] by {
                assert(r@[t]@ == self.sessions@[t]@);
            }
            assert(entry_views(r@) =~= self@);
        }
        r
    }

    /// A copy of every session of the given access point, in storage order.
    pub fn find_handshakes_by_ap(&self, ap_mac: &MacAddress) -> (r: Vec<SessionEntry>)
        ensures
            entry_views(r@) == sessions_for_ap(self@, ap_mac@),
    {
        let mut r: Vec<SessionEntry> = Vec::new();
        let mut i: usize = 0;
        proof {
            assert(self@.take(0) =~= Seq::<SessionEntryView>::empty());
        }
        while i < self.sessions.len()
            invariant
                i <= self.sessions@.len(),
                self@.len() == self.sessions@.len(),
                self@ == entry_views(self.sessions@),
                entry_views(r@) =~= sessions_for_ap(self@.take(i as int), ap_mac@),
            decreases self.sessions@.len() - i,
        {
            proof {
                lemma_sessions_for_ap_snoc(self@, ap_mac@, i as int);
            }
            if self.sessions[i].key.ap_mac.same_as(ap_mac) {
                r.push(self.sessions[i].clone());
            }
            proof {
                assert(entry_views(r@) =~= sessions_for_ap(self@.take(i + 1 as int), ap_mac@));
            }
            i = i + 1;
        }
        proof {
            assert(self@.take(self@.len() as int) =~= self@);
        }
        r
    }

    /// Whether the store holds a complete handshake for the access point.
    pub fn has_complete_handshake_for_ap(&self, ap_mac: &MacAddress) -> (r: bool)
        ensures
            r == has_complete_for_ap(self@, ap_mac@),
    {
        let mut i: usize = 0;
        while i < self.sessions.len()
            invariant
                i <= self.sessions@.len(),
                self@ == entry_views(self.sessions@),
                forall|i2: int, j: int|
                    0 <= i2 < i && 0 <= j < self@[i2].handshakes.len() ==> !(self@[i2].ap
                        == ap_mac@ && (#[trigger] self@[i2].handshakes[j]).complete()),
            decreases self.sessions@.len() - i,
        {
            let matches_ap = self.sessions[i].key.ap_mac.same_as(ap_mac);
            let found = matches_ap && any_complete(&self.sessions[i].handshakes);
            proof {
                assert(self@[i as int] == self.sessions@[i as int]@);
            }
            if found {
                proof {
                    let j0 = choose|j: int|
                        0 <= j < self.sessions@[i as int].handshakes@.len()
                            && (#[trigger] handshake_views(
                            self.sessions@[i as int].handshakes@,
                        )[j]).complete();
                    assert(self@[i as int].handshakes[j0].complete());
                }
                return true;
            }
            i = i + 1;
        }
        false
    }

    /// Whether the store holds message 1 of any handshake for the access
    /// point.
    pub fn has_m1_for_ap(&self, ap_mac: &MacAddress) -> (r: bool)
        ensures
            r == has_m1_for_ap(self@, ap_mac@),
    {
        let mut i: usize = 0;
        while i < self.sessions.len()
            invariant
                i <= self.sessions@.len(),
                self@ == entry_views(self.sessions@),
                forall|i2: int, j: int|
                    0 <= i2 < i && 0 <= j < self@[i2].handshakes.len() ==> !(self@[i2].ap
                        == ap_mac@ && (#[trigger] self@[i2].handshakes[j]).msg1 is Some),
            decreases self.sessions@.len() - i,
        {
            let matches_ap = self.sessions[i].key.ap_mac.same_as(ap_mac);
            let found = matches_ap && any_m1(&self.sessions[i].handshakes);
            proof {
                assert(self@[i as int] == self.sessions@[i as int]@);
            }
            if found {
                proof {
                    let j0 = choose|j: int|
                        0 <= j < self.sessions@[i as int].handshakes@.len()
                            && (#[trigger] handshake_views(
                            self.sessions@[i as int].handshakes@,
                        )[j]).msg1 is Some;
                    assert(self@[i as int].handshakes[j0].msg1 is Some);
                }
                return true;
            }
            i = i + 1;
        }
        false
    }

    /// The position of the session's entry, when one exists.
    fn find_session(&self, ap_mac: &MacAddress, client_mac: &MacAddress) -> (r: Option<usize>)
        ensures
            r matches Some(i) ==> 0 <= i < self@.len() && entry_matches(
                self@[i as int],
                ap_mac@,
                client_mac@,
            ),
            r is None ==> forall|i: int|
                0 <= i < self@.len() ==> !(#[trigger] entry_matches(self@[i], ap_mac@, client_mac@)),
    {
        let mut i: usize = 0;
        while i < self.sessions.len()
            invariant
                i <= self.sessions@.len(),
                self@ == entry_views(self.sessions@),
                forall|i2: int|
                    0 <= i2 < i ==> !(#[trigger] entry_matches(self@[i2], ap_mac@, client_mac@)),
            decreases self.sessions@.len() - i,
        {
            if self.sessions[i].key.ap_mac.same_as(ap_mac) && self.sessions[i].key.client_mac
                .same_as(client_mac) {
                return Some(i);
            }
            i = i + 1;
        }
        None
    }

    /// Attaches the key to the first handshake of the session that accepts
    /// it, or starts a new handshake — and a new session entry when none
    /// existed — at the tail.  The touched handshake receives the session
    /// identity, and the ESSID when one is supplied, and a copy of it is
    /// returned.
    /// [`add_or_update_ok`] and [`add_or_update_err`] state the two
    /// outcomes.
    #[verifier::rlimit(100)]
    pub fn add_or_update_handshake(
        &mut self,
        ap_mac: &MacAddress,
        client_mac: &MacAddress,
        new_key: EapolKey,
        essid: Option<String>,
    ) -> (r: Result<FourWayHandshake, &'static str>)
        requires
            old(self).wf(),
            new_key.key_data_length == 22 ==> new_key.key_data@.len() == 22,
        ensures
            final(self).wf(),
            match r {
                Ok(h) => add_or_update_ok(
                    old(self)@,
                    final(self)@,
                    ap_mac@,
                    client_mac@,
                    new_key@,
                    opt_view(essid),
                    h@,
                ),
                Err(e) => add_or_update_err(
                    old(self)@,
                    final(self)@,
                    ap_mac@,
                    client_mac@,
                    new_key@,
                ) && (add_key_reject(empty_handshake(), new_key@) matches Some(m) && e@ == m),
            },
    {
        match self.find_session(ap_mac, client_mac) {
            Some(idx) => self.add_to_session(idx, ap_mac, client_mac, new_key, essid),
            None => {
                let attempt = fresh_attempt(ap_mac, client_mac, &new_key, essid);
                let mut list: Vec<FourWayHandshake> = Vec::new();
                let mut outcome: Result<FourWayHandshake, &'static str> = Err("");
                match attempt {
                    Ok(h) => {
                        let ret = h.clone();
                        list.push(h);
                        outcome = Ok(ret);
                    },
                    Err(e) => {
                        outcome = Err(e);
                    },
                }
                let entry = SessionEntry {
                    key: HandshakeSessionKey { ap_mac: *ap_mac, client_mac: *client_mac },
                    handshakes: list,
                };
                self.sessions.push(entry);
                proof {
                    match &outcome {
                        Ok(h) => {
                            assert(entry@.handshakes =~= seq![h@]);
                            assert(self@ =~= old(self)@.push(
                                SessionEntryView {
                                    ap: ap_mac@,
                                    client: client_mac@,
                                    handshakes: seq![h@],
                                },
                            ));
                        },
                        Err(_) => {
                            assert(entry@.handshakes =~= Seq::<HandshakeView>::empty());
                            assert(self@ =~= old(self)@.push(
                                SessionEntryView {
                                    ap: ap_mac@,
                                    client: client_mac@,
                                    handshakes: Seq::empty(),
                                },
                            ));
                        },
                    }
                    assert forall|a: int, b: int|
                        0 <= a < b < self@.len() implies !(self@[a].ap == self@[b].ap
                        && self@[a].client == self@[b].client) by {
                        if b < old(self)@.len() {
                            assert(!(old(self)@[a].ap == old(self)@[b].ap && old(self)@[a].client
                                == old(self)@[b].client));
                        } else {
                            assert(!entry_matches(old(self)@[a], ap_mac@, client_mac@));
                        }
                    }
                }
                outcome
            },
        }
    }

    /// Attaches the key within the existing session entry at `idx`.
    #[verifier::rlimit(100)]
    fn add_to_session(
        &mut self,
        idx: usize,
        ap_mac: &MacAddress,
        client_mac: &MacAddress,
        new_key: EapolKey,
        essid: Option<String>,
    ) -> (r: Result<FourWayHandshake, &'static str>)
        requires
            old(self).wf(),
            idx < old(self)@.len(),
            entry_matches(old(self)@[idx as int], ap_mac@, client_mac@),
            new_key.key_data_length == 22 ==> new_key.key_data@.len() == 22,
        ensures
            final(self).wf(),
            match r {
                Ok(h) => add_or_update_ok(
                    old(self)@,
                    final(self)@,
                    ap_mac@,
                    client_mac@,
                    new_key@,
                    opt_view(essid),
                    h@,
                ),
                Err(e) => add_or_update_err(
                    old(self)@,
                    final(self)@,
                    ap_mac@,
                    client_mac@,
                    new_key@,
                ) && (add_key_reject(empty_handshake(), new_key@) matches Some(m) && e@ == m),
            },
    {
        let ghost pre = old(self)@;
        proof {
            assert(exists|i: int|
                0 <= i < pre.len() && #[trigger] entry_matches(pre[i], ap_mac@, client_mac@));
            let i0 = choose|i: int|
                0 <= i < pre.len() && #[trigger] entry_matches(pre[i], ap_mac@, client_mac@);
            assert(i0 == idx);
        }
        let mut entry = SessionEntry {
            key: HandshakeSessionKey { ap_mac: *ap_mac, client_mac: *client_mac },
            handshakes: Vec::new(),
        };
        self.sessions.set_and_swap(idx, &mut entry);
        let ghost list0 = handshake_views(entry.handshakes@);
        proof {
            assert(list0 == pre[idx as int].handshakes);
        }
        let (found, j) = try_existing(&mut entry.handshakes, ap_mac, client_mac, &new_key, &essid);
        match found {
            Some(ret) => {
                let ghost entry_v = entry@;
                self.sessions.set_and_swap(idx, &mut entry);
                proof {
                    assert(accepts_at(list0, new_key@, j@));
                    let j0 = choose|j1: int| accepts_at(list0, new_key@, j1);
                    lemma_accepts_at_unique(list0, new_key@, j0, j@);
                    assert(entry_v =~= SessionEntryView {
                        handshakes: list0.update(j@, ret@),
                        ..pre[idx as int]
                    });
                    assert(self@ =~= pre.update(idx as int, entry_v));
                }
                Ok(ret)
            },
            None => {
                let attempt = fresh_attempt(ap_mac, client_mac, &new_key, essid);
                match attempt {
                    Ok(h) => {
                        let ret = h.clone();
                        entry.handshakes.push(h);
                        proof {
                            assert(forall|j1: int| !accepts_at(list0, new_key@, j1));
                            assert(entry.handshakes@[list0.len() as int]@ == ret@);
                            assert(handshake_views(entry.handshakes@) =~= list0.push(ret@));
                        }
                        let ghost entry_v = entry@;
                        self.sessions.set_and_swap(idx, &mut entry);
                        proof {
                            assert(entry_v =~= SessionEntryView {
                                handshakes: list0.push(ret@),
                                ..pre[idx as int]
                            });
                            assert(self@ =~= pre.update(idx as int, entry_v));
                        }
                        Ok(ret)
                    },
                    Err(e) => {
                        let ghost entry_v = entry@;
                        self.sessions.set_and_swap(idx, &mut entry);
                        proof {
                            assert(entry_v =~= pre[idx as int]);
                            assert(self@ =~= pre.update(idx as int, entry_v));
                            assert(self@ =~= pre);
                        }
                        Err(e)
                    },
                }
            },
        }
    }
}

/// No two positions of a list can both be the first to accept a key.
pub proof fn lemma_accepts_at_unique(
    list: Seq<HandshakeView>,
    k: EapolKeyView,
    j1: int,
    j2: int,
)
    requires
        accepts_at(list, k, j1),
        accepts_at(list, k, j2),
    ensures
        j1 == j2,
{
    if j1 < j2 {
        assert(add_key_reject(list[j1], k) is Some);
    }
    if j2 < j1 {
        assert(add_key_reject(list[j2], k) is Some);
    }
}

/// Runs the key through the handshakes of a list in order; the first that
/// accepts it is updated in place, stamped with the session identity, and
/// returned together with its position.
#[verifier::spinoff_prover]
#[verifier::rlimit(100)]
fn try_existing(
    list: &mut Vec<FourWayHandshake>,
    ap_mac: &MacAddress,
    client_mac: &MacAddress,
    new_key: &EapolKey,
    essid: &Option<String>,
) -> (r: (Option<FourWayHandshake>, Ghost<int>))
    requires
        new_key.key_data_length == 22 ==> new_key.key_data@.len() == 22,
    ensures
        r.0 matches Some(h) ==> {
            &&& accepts_at(handshake_views(old(list)@), new_key@, r.1@)
            &&& h@ == with_identity(
                add_key_updated(handshake_views(old(list)@)[r.1@], new_key@),
                ap_mac@,
                client_mac@,
                opt_view(*essid),
            )
            &&& handshake_views(final(list)@) =~= handshake_views(old(list)@).update(r.1@, h@)
        },
        r.0 is None ==> final(list)@ == old(list)@ && (forall|j: int|
            0 <= j < old(list)@.len() ==> (#[trigger] add_key_reject(
                handshake_views(old(list)@)[j],
                new_key@,
            )) is Some),
{
    let ghost list0 = handshake_views(old(list)@);
    let n = list.len();
    let mut j: usize = 0;
    while j < n
        invariant
            n == list@.len(),
            j <= n,
            list@ == old(list)@,
            new_key.key_data_length == 22 ==> new_key.key_data@.len() == 22,
            list0 == handshake_views(list@),
            forall|j2: int|
                0 <= j2 < j ==> (#[trigger] add_key_reject(list0[j2], new_key@)) is Some,
        decreases n - j,
    {
        let mut hs = FourWayHandshake::new();
        list.set_and_swap(j, &mut hs);
        let res = hs.add_key(new_key);
        match res {
            Ok(()) => {
                hs.mac_ap = Some(*ap_mac);
                hs.mac_client = Some(*client_mac);
                if essid.is_some() {
                    hs.essid = clone_opt_string(essid);
                }
                let ret = hs.clone();
                proof {
                    assert(list0[j as int] == old(list)@[j as int]@);
                    assert(accepts_at(list0, new_key@, j as int));
                    assert(ret@ =~= with_identity(
                        add_key_updated(list0[j as int], new_key@),
                        ap_mac@,
                        client_mac@,
                        opt_view(*essid),
                    ));
                }
                list.set_and_swap(j, &mut hs);
                proof {
                    assert(list@[j as int]@ == ret@);
                    assert(handshake_views(list@) =~= list0.update(j as int, ret@));
                }
                return (Some(ret), Ghost(j as int));
            },
            Err(_) => {
                list.set_and_swap(j, &mut hs);
                proof {
                    assert(list@ =~= old(list)@);
                }
                j = j + 1;
            },
        }
    }
    (None, Ghost(0))
}

/// Starts a fresh handshake with the key; on acceptance the session
/// identity and the ESSID are written into it.
fn fresh_attempt(
    ap_mac: &MacAddress,
    client_mac: &MacAddress,
    new_key: &EapolKey,
    essid: Option<String>,
) -> (r: Result<FourWayHandshake, &'static str>)
    requires
        new_key.key_data_length == 22 ==> new_key.key_data@.len() == 22,
    ensures
        match r {
            Ok(h) => add_key_reject(empty_handshake(), new_key@) is None && h@ == with_identity(
                add_key_updated(empty_handshake(), new_key@),
                ap_mac@,
                client_mac@,
                opt_view(essid),
            ),
            Err(e) => add_key_reject(empty_handshake(), new_key@) matches Some(m) && e@ == m,
        },
{
    let mut fresh = FourWayHandshake::new();
    match fresh.add_key(new_key) {
        Ok(()) => {
            fresh.mac_ap = Some(*ap_mac);
            fresh.mac_client = Some(*client_mac);
            if essid.is_some() {
                fresh.essid = essid;
            }
            proof {
                assert(fresh@ =~= with_identity(
                    add_key_updated(empty_handshake(), new_key@),
                    ap_mac@,
                    client_mac@,
                    opt_view(essid),
                ));
            }
            Ok(fresh)
        },
        Err(e) => Err(e),
    }
}

} // verus!
