//! Core value types: leaderboard names, author identifiers and score
//! scalars, together with their mathematical views.

use vstd::prelude::*;

verus! {

/// Largest magnitude a score scalar (a delta, a running total, or a
/// displayed ranking value) may carry. Construction validates the bound,
/// so score arithmetic can be checked exactly; a value outside it is a
/// defect of the producer, never silently coerced.
pub const SCORE_LIMIT: i64 = 0x4000_0000_0000_0000;

/// The range every score scalar lives in.
pub open spec fn score_in_range(v: int) -> bool {
    -(SCORE_LIMIT as int) <= v && v <= SCORE_LIMIT as int
}

/// An opaque, comparable identifier for one registered leaderboard.
pub struct LeaderboardName {
    name: String,
}

impl View for LeaderboardName {
    type V = Seq<char>;

    closed spec fn view(&self) -> Seq<char> {
        self.name@
    }
}

impl LeaderboardName {
    pub fn new(name: String) -> (r: Self)
        ensures
            r@ == name@,
    {
        LeaderboardName { name }
    }

    pub fn get(&self) -> (r: &String)
        ensures
            r@ == self@,
    {
        &self.name
    }
}

impl Clone for LeaderboardName {
    fn clone(&self) -> (r: Self)
        ensures
            r@ == self@,
    {
        LeaderboardName { name: self.name.clone() }
    }
}

impl PartialEq for LeaderboardName {
    fn eq(&self, other: &Self) -> (r: bool) {
        self.name == other.name
    }
}

impl vstd::std_specs::cmp::PartialEqSpecImpl for LeaderboardName {
    open spec fn obeys_eq_spec() -> bool {
        true
    }

    open spec fn eq_spec(&self, other: &Self) -> bool {
        self@ == other@
    }
}

impl Eq for LeaderboardName {}

/// The platform-specific identifier of a scored participant.
pub struct TwitchId {
    id: String,
}

impl View for TwitchId {
    type V = Seq<char>;

    closed spec fn view(&self) -> Seq<char> {
        self.id@
    }
}

impl TwitchId {
    pub fn new(id: String) -> (r: Self)
        ensures
            r@ == id@,
    {
        TwitchId { id }
    }

    pub fn get(&self) -> (r: &String)
        ensures
            r@ == self@,
    {
        &self.id
    }
}

impl Clone for TwitchId {
    fn clone(&self) -> (r: Self)
        ensures
            r@ == self@,
    {
        TwitchId { id: self.id.clone() }
    }
}

/// An opaque key naming a scored participant, tagged by the platform it
/// came from.
pub enum AuthorId {
    Twitch(TwitchId),
}

/// The mathematical identity of an author.
pub ghost enum AuthorKey {
    Twitch(Seq<char>),
}

impl View for AuthorId {
    type V = AuthorKey;

    open spec fn view(&self) -> AuthorKey {
        match self {
            AuthorId::Twitch(t) => AuthorKey::Twitch(t@),
        }
    }
}

impl Clone for AuthorId {
    fn clone(&self) -> (r: Self)
        ensures
            r@ == self@,
    {
        match self {
            AuthorId::Twitch(t) => AuthorId::Twitch(t.clone()),
        }
    }
}

impl PartialEq for AuthorId {
    fn eq(&self, other: &Self) -> (r: bool) {
        match (self, other) {
            (AuthorId::Twitch(a), AuthorId::Twitch(b)) => a.id == b.id,
        }
    }
}

impl vstd::std_specs::cmp::PartialEqSpecImpl for AuthorId {
    open spec fn obeys_eq_spec() -> bool {
        true
    }

    open spec fn eq_spec(&self, other: &Self) -> bool {
        self@ == other@
    }
}

impl Eq for AuthorId {}

/// A raw accumulated score contribution for one author on one
/// leaderboard. Validated to lie within `SCORE_LIMIT` on construction.
pub struct PerformancePoints {
    value: i64,
}

impl View for PerformancePoints {
    type V = int;

    closed spec fn view(&self) -> int {
        self.value as int
    }
}

impl PerformancePoints {
    #[verifier::type_invariant]
    pub closed spec fn inv(&self) -> bool {
        score_in_range(self.value as int)
    }

    pub fn new(value: i64) -> (r: Self)
        requires
            score_in_range(value as int),
        ensures
            r@ == value as int,
    {
        PerformancePoints { value }
    }

    pub fn get(&self) -> (r: i64)
        ensures
            r as int == self@,
            score_in_range(r as int),
    {
        proof {
            use_type_invariant(self);
        }
        self.value
    }
}

impl Clone for PerformancePoints {
    fn clone(&self) -> (r: Self)
        ensures
            r@ == self@,
    {
        proof {
            use_type_invariant(self);
        }
        PerformancePoints { value: self.value }
    }
}

impl Copy for PerformancePoints {}

/// A displayed ranking value, produced only by the ranking function.
/// Construction validates the bound; a value outside it is a fatal
/// defect of the ranking function.
pub struct Elo {
    value: i64,
}

impl View for Elo {
    type V = int;

    closed spec fn view(&self) -> int {
        self.value as int
    }
}

impl Elo {
    #[verifier::type_invariant]
    pub closed spec fn inv(&self) -> bool {
        score_in_range(self.value as int)
    }

    pub fn new(value: i64) -> (r: Self)
        requires
            score_in_range(value as int),
        ensures
            r@ == value as int,
    {
        Elo { value }
    }

    pub fn get(&self) -> (r: i64)
        ensures
            r as int == self@,
            score_in_range(r as int),
    {
        proof {
            use_type_invariant(self);
        }
        self.value
    }
}

impl Clone for Elo {
    fn clone(&self) -> (r: Self)
        ensures
            r@ == self@,
    {
        proof {
            use_type_invariant(self);
        }
        Elo { value: self.value }
    }
}

impl Copy for Elo {}

/// One ranked position: an author and the ranking value shown for them.
pub struct LeaderboardEloEntry {
    pub author_id: AuthorId,
    pub elo: Elo,
}

/// The mathematical content of one ranked position.
pub ghost struct EntryV {
    pub author: AuthorKey,
    pub elo: int,
}

impl View for LeaderboardEloEntry {
    type V = EntryV;

    open spec fn view(&self) -> EntryV {
        EntryV { author: self.author_id@, elo: self.elo@ }
    }
}

impl LeaderboardEloEntry {
    pub fn new(author_id: AuthorId, elo: Elo) -> (r: Self)
        ensures
            r@ == (EntryV { author: author_id@, elo: elo@ }),
    {
        LeaderboardEloEntry { author_id, elo }
    }
}

impl Clone for LeaderboardEloEntry {
    fn clone(&self) -> (r: Self)
        ensures
            r@ == self@,
    {
        LeaderboardEloEntry { author_id: self.author_id.clone(), elo: self.elo.clone() }
    }
}

impl PartialEq for LeaderboardEloEntry {
    fn eq(&self, other: &Self) -> (r: bool) {
        self.author_id == other.author_id && self.elo.get() == other.elo.get()
    }
}

impl vstd::std_specs::cmp::PartialEqSpecImpl for LeaderboardEloEntry {
    open spec fn obeys_eq_spec() -> bool {
        true
    }

    open spec fn eq_spec(&self, other: &Self) -> bool {
        self@ == other@
    }
}

impl Eq for LeaderboardEloEntry {}

/// One ranked position together with the raw total it was computed from.
pub struct LeaderboardStateEntry {
    pub author_id: AuthorId,
    pub elo: Elo,
    pub performance_points: PerformancePoints,
}

impl Clone for LeaderboardStateEntry {
    fn clone(&self) -> (r: Self)
        ensures
            r.author_id@ == self.author_id@,
            r.elo@ == self.elo@,
            r.performance_points@ == self.performance_points@,
    {
        LeaderboardStateEntry {
            author_id: self.author_id.clone(),
            elo: self.elo.clone(),
            performance_points: self.performance_points.clone(),
        }
    }
}

impl From<LeaderboardStateEntry> for LeaderboardEloEntry {
    fn from(value: LeaderboardStateEntry) -> (r: Self) {
        LeaderboardEloEntry { author_id: value.author_id, elo: value.elo }
    }
}

impl vstd::std_specs::convert::FromSpecImpl<LeaderboardStateEntry> for LeaderboardEloEntry {
    open spec fn obeys_from_spec() -> bool {
        true
    }

    open spec fn from_spec(value: LeaderboardStateEntry) -> Self {
        LeaderboardEloEntry { author_id: value.author_id, elo: value.elo }
    }
}

/// The full ordered state of one leaderboard, highest rank first.
pub type LeaderboardElos = Vec<LeaderboardEloEntry>;

/// The mathematical content of one snapshot.
pub open spec fn view_entries(s: Seq<LeaderboardEloEntry>) -> Seq<EntryV> {
    Seq::new(s.len(), |i: int| s[i]@)
}

/// Authors within one snapshot are unique and every shown value is in
/// range.
pub open spec fn snapshot_wf(s: Seq<EntryV>) -> bool {
    &&& forall|i: int, j: int|
        0 <= i < s.len() && 0 <= j < s.len() && i != j ==> s[i].author != s[j].author
    &&& forall|i: int| 0 <= i < s.len() ==> score_in_range(#[trigger] s[i].elo)
}

/// Copy a snapshot, preserving its mathematical content. Reads of the
/// shared state hand out such deep, independent copies.
pub fn clone_snapshot(s: &LeaderboardElos) -> (r: LeaderboardElos)
    ensures
        view_entries(r@) == view_entries(s@),
        r@.len() == s@.len(),
{
    let mut out: LeaderboardElos = Vec::new();
    let mut i: usize = 0;
    while i < s.len()
        invariant
            i <= s.len(),
            out@.len() == i,
            forall|k: int| 0 <= k < i ==> out@[k]@ == s@[k]@,
        decreases s.len() - i,
    {
        out.push(s[i].clone());
        i = i + 1;
    }
    proof {
        assert(view_entries(out@) =~= view_entries(s@));
    }
    out
}

} // verus!
