use vstd::prelude::*;

use crate::config::{Config, MAX_IMAGES_NUMBER};
use crate::errors::{AppResult, Error};
use crate::image::{Image, ImageStartTime};

verus! {

/// The start time of the entry at `i`, as a minute of the day.
pub open spec fn start_of(s: Seq<Image>, i: int) -> int {
    s[i].spec_start().value()
}

/// Entries sorted ascending by start time.
pub open spec fn spec_sorted(s: Seq<Image>) -> bool {
    forall|i: int, j: int|
        0 <= i <= j < s.len() ==> #[trigger] start_of(s, i) <= #[trigger] start_of(s, j)
}

/// `x` placed after every entry of `s` whose start does not exceed `x`'s:
/// the position a stable sort gives an entry arriving after all of `s`.
pub open spec fn spec_insert(s: Seq<Image>, x: Image) -> Seq<Image>
    decreases s.len(),
{
    if s.len() == 0 {
        seq![x]
    } else if s.last().spec_start().value() <= x.spec_start().value() {
        s.push(x)
    } else {
        spec_insert(s.drop_last(), x).push(s.last())
    }
}

/// The stable ascending sort of `s` by start time: entries with equal starts
/// keep their insertion order.
pub open spec fn spec_sort(s: Seq<Image>) -> Seq<Image>
    decreases s.len(),
{
    if s.len() == 0 {
        Seq::empty()
    } else {
        spec_insert(spec_sort(s.drop_last()), s.last())
    }
}

pub proof fn lemma_insert_len(s: Seq<Image>, x: Image)
    ensures
        spec_insert(s, x).len() == s.len() + 1,
    decreases s.len(),
{
    if s.len() > 0 && !(s.last().spec_start().value() <= x.spec_start().value()) {
        lemma_insert_len(s.drop_last(), x);
    }
}

/// Inserting keeps every start bounded by any bound on the old entries and on `x`.
proof fn lemma_insert_bounded(s: Seq<Image>, x: Image, b: int)
    requires
        forall|i: int| 0 <= i < s.len() ==> #[trigger] start_of(s, i) <= b,
        x.spec_start().value() <= b,
    ensures
        forall|i: int|
            0 <= i < spec_insert(s, x).len() ==> #[trigger] start_of(spec_insert(s, x), i) <= b,
    decreases s.len(),
{
    lemma_insert_len(s, x);
    if s.len() == 0 {
        assert forall|i: int|
            0 <= i < spec_insert(s, x).len() implies #[trigger] start_of(spec_insert(s, x), i)
            <= b by {
            assert(spec_insert(s, x)[i] == x);
        }
    } else if s.last().spec_start().value() <= x.spec_start().value() {
        assert forall|i: int|
            0 <= i < spec_insert(s, x).len() implies #[trigger] start_of(spec_insert(s, x), i)
            <= b by {
            if i < s.len() {
                assert(spec_insert(s, x)[i] == s[i]);
                assert(start_of(s, i) <= b);
            } else {
                assert(spec_insert(s, x)[i] == x);
            }
        }
    } else {
        assert(forall|i: int|
            0 <= i < s.drop_last().len() ==> #[trigger] start_of(s.drop_last(), i) == start_of(
                s,
                i,
            ));
        lemma_insert_bounded(s.drop_last(), x, b);
        let t = spec_insert(s.drop_last(), x);
        lemma_insert_len(s.drop_last(), x);
        assert forall|i: int|
            0 <= i < spec_insert(s, x).len() implies #[trigger] start_of(spec_insert(s, x), i)
            <= b by {
            if i < t.len() {
                assert(spec_insert(s, x)[i] == t[i]);
                assert(start_of(t, i) <= b);
            } else {
                assert(spec_insert(s, x)[i] == s.last());
                assert(start_of(s, s.len() - 1) <= b);
            }
        }
    }
}

pub proof fn lemma_insert_sorted(s: Seq<Image>, x: Image)
    requires
        spec_sorted(s),
    ensures
        spec_sorted(spec_insert(s, x)),
    decreases s.len(),
{
    lemma_insert_len(s, x);
    if s.len() == 0 {
    } else if s.last().spec_start().value() <= x.spec_start().value() {
        assert forall|i: int, j: int|
            0 <= i <= j < s.push(x).len() implies #[trigger] start_of(s.push(x), i)
            <= #[trigger] start_of(s.push(x), j) by {
            if j < s.len() {
                assert(start_of(s, i) <= start_of(s, j));
            } else if i < s.len() {
                assert(start_of(s, i) <= start_of(s, s.len() - 1));
            }
        }
    } else {
        let t = spec_insert(s.drop_last(), x);
        let y = s.last();
        assert(forall|i: int|
            0 <= i < s.drop_last().len() ==> #[trigger] start_of(s.drop_last(), i) == start_of(
                s,
                i,
            ));
        assert(spec_sorted(s.drop_last()));
        lemma_insert_sorted(s.drop_last(), x);
        lemma_insert_len(s.drop_last(), x);
        assert forall|i: int|
            0 <= i < s.drop_last().len() implies #[trigger] start_of(s.drop_last(), i)
            <= y.spec_start().value() by {
            assert(start_of(s, i) <= start_of(s, s.len() - 1));
        }
        lemma_insert_bounded(s.drop_last(), x, y.spec_start().value());
        assert forall|i: int, j: int|
            0 <= i <= j < t.push(y).len() implies #[trigger] start_of(t.push(y), i)
            <= #[trigger] start_of(t.push(y), j) by {
            if j < t.len() {
                assert(start_of(t.push(y), i) == start_of(t, i));
                assert(start_of(t.push(y), j) == start_of(t, j));
            } else if i < t.len() {
                assert(start_of(t.push(y), i) == start_of(t, i));
                assert(start_of(t, i) <= y.spec_start().value());
            }
        }
    }
}

/// The stable sort really sorts, and keeps the length.
pub proof fn lemma_sort_sorted(s: Seq<Image>)
    ensures
        spec_sorted(spec_sort(s)),
        spec_sort(s).len() == s.len(),
    decreases s.len(),
{
    if s.len() > 0 {
        lemma_sort_sorted(s.drop_last());
        lemma_insert_sorted(spec_sort(s.drop_last()), s.last());
        lemma_insert_len(spec_sort(s.drop_last()), s.last());
    }
}

proof fn lemma_insert_multiset(s: Seq<Image>, x: Image)
    ensures
        spec_insert(s, x).to_multiset() == s.to_multiset().insert(x),
    decreases s.len(),
{
    broadcast use vstd::seq_lib::group_to_multiset_ensures;

    if s.len() == 0 {
        assert(spec_insert(s, x) =~= s.push(x));
    } else if s.last().spec_start().value() <= x.spec_start().value() {
    } else {
        let d = s.drop_last();
        let y = s.last();
        lemma_insert_multiset(d, x);
        assert(s =~= d.push(y));
        assert(spec_insert(s, x).to_multiset() =~= d.to_multiset().insert(x).insert(y));
        assert(d.to_multiset().insert(x).insert(y) =~= d.to_multiset().insert(y).insert(x));
    }
}

/// The stable sort neither loses, adds nor duplicates an entry: what comes
/// out is a permutation of what went in.
pub proof fn lemma_sort_permutes(s: Seq<Image>)
    ensures
        spec_sort(s).to_multiset() == s.to_multiset(),
    decreases s.len(),
{
    broadcast use vstd::seq_lib::group_to_multiset_ensures;

    if s.len() > 0 {
        let d = s.drop_last();
        lemma_sort_permutes(d);
        lemma_insert_multiset(spec_sort(d), s.last());
        assert(s =~= d.push(s.last()));
    }
}

/// Where the scan of `insert_image` stops is where `spec_insert` places `x`.
proof fn lemma_insert_position(s: Seq<Image>, x: Image, j: int)
    requires
        0 <= j <= s.len(),
        forall|k: int| j <= k < s.len() ==> #[trigger] start_of(s, k) > x.spec_start().value(),
        j > 0 ==> start_of(s, j - 1) <= x.spec_start().value(),
    ensures
        spec_insert(s, x) == s.insert(j, x),
    decreases s.len(),
{
    lemma_insert_len(s, x);
    if j == s.len() {
        if s.len() == 0 {
            assert(spec_insert(s, x) =~= s.insert(j, x));
        } else {
            assert(start_of(s, s.len() - 1) <= x.spec_start().value());
            assert(spec_insert(s, x) =~= s.insert(j, x));
        }
    } else {
        assert(start_of(s, s.len() - 1) > x.spec_start().value());
        assert(forall|i: int|
            0 <= i < s.drop_last().len() ==> #[trigger] start_of(s.drop_last(), i) == start_of(
                s,
                i,
            ));
        lemma_insert_position(s.drop_last(), x, j);
        lemma_insert_len(s.drop_last(), x);
        assert(spec_insert(s, x) =~= s.insert(j, x));
    }
}

/// Places `x` at the position the stable sort gives it.
fn insert_image(v: Vec<Image>, x: Image) -> (r: Vec<Image>)
    ensures
        r@ == spec_insert(v@, x),
{
    let mut v = v;
    let xv = x.start().minutes_of_day();
    let mut j: usize = v.len();
    while j > 0 && v[j - 1].start().minutes_of_day() > xv
        invariant
            j <= v@.len(),
            xv == x.spec_start().value(),
            forall|k: int| j <= k < v@.len() ==> #[trigger] start_of(v@, k) > x.spec_start().value(),
        decreases j,
    {
        j = j - 1;
    }
    proof {
        lemma_insert_position(v@, x, j as int);
    }
    v.insert(j, x);
    v
}

/// Sorts the entries ascending by start time with a stable insertion sort.
fn sort_images(images: Vec<Image>) -> (r: Vec<Image>)
    ensures
        r@ == spec_sort(images@),
{
    let ghost orig = images@;
    let mut rest = images;
    let total: usize = rest.len();
    assert(orig.len() == total);
    let mut out: Vec<Image> = Vec::new();
    let mut taken: usize = 0;
    while rest.len() > 0
        invariant
            orig.len() <= usize::MAX,
            taken + rest@.len() == orig.len(),
            rest@ == orig.skip(taken as int),
            out@ == spec_sort(orig.take(taken as int)),
        decreases rest@.len(),
    {
        let x = rest.remove(0);
        assert(x == orig[taken as int]);
        out = insert_image(out, x);
        proof {
            assert(orig.skip(taken as int).remove(0) =~= orig.skip(taken + 1));
            assert(orig.take(taken + 1).drop_last() =~= orig.take(taken as int));
            assert(orig.take(taken + 1).last() == orig[taken as int]);
        }
        taken = taken + 1;
    }
    proof {
        assert(orig.take(taken as int) =~= orig);
    }
    out
}

/// The construction stage before any descriptor has been attached.
#[derive(Debug)]
pub struct Empty;

/// The construction stage holding an unsorted, minimally checked sequence.
#[derive(Debug)]
pub struct Loaded;

/// The only stage whose schedule is known non-empty and sorted, and the only
/// one that exposes the per-poll selection.
#[derive(Debug)]
pub struct Executable;

/// A staged wallpaper scheduler. Each stage transition consumes the previous
/// value, so no reachable `Application<Executable>` holds an empty or
/// unsorted schedule.
#[derive(Debug)]
pub struct Application<State = Empty> {
    config: Config,
    /// Maximum 1440 = 1 per minute.
    images: Vec<Image>,
    last_index_used: Option<usize>,
    state: State,
}

impl<State> Application<State> {
    /// The schedule this value holds.
    pub closed spec fn images_seq(&self) -> Seq<Image> {
        self.images@
    }

    /// The cache of the previous poll's outcome.
    pub closed spec fn spec_cache(&self) -> Option<usize> {
        self.last_index_used
    }

    pub closed spec fn spec_config(&self) -> Config {
        self.config
    }

    pub fn config(&self) -> (r: &Config)
        ensures
            *r == self.spec_config(),
    {
        &self.config
    }
}

impl Application<Empty> {
    pub fn default() -> (r: Application<Empty>)
        ensures
            r.images_seq().len() == 0,
            r.spec_cache() is None,
            r.spec_config() == Config::spec_default(),
    {
        Application {
            config: Config::default(),
            images: Vec::with_capacity(MAX_IMAGES_NUMBER),
            last_index_used: None,
            state: Empty,
        }
    }

    pub fn set_config(&mut self, config: Config)
        ensures
            final(self).spec_config() == config,
            final(self).images_seq() == old(self).images_seq(),
            final(self).spec_cache() == old(self).spec_cache(),
    {
        self.config = config;
    }

    /// Attaches the descriptor list, unsorted. Rejects an empty list, and a
    /// list exactly at the fixed capacity: both boundaries answer
    /// `TooImagesLoaded`, and the check is `== MAX_IMAGES_NUMBER`, not `>`,
    /// kept as the explicit attach-stage policy.
    pub fn set_images(self, images: Vec<Image>) -> (r: AppResult<Application<Loaded>>)
        ensures
            r is Ok <==> (images@.len() >= 1 && images@.len() != MAX_IMAGES_NUMBER),
            r is Ok ==> r->Ok_0.images_seq() == images@ && r->Ok_0.spec_cache() is None
                && r->Ok_0.spec_config() == self.spec_config(),
            r is Err ==> r->Err_0 == Error::TooImagesLoaded,
    {
        if images.len() == 0 {
            return Err(Error::TooImagesLoaded);
        }

        if images.len() == MAX_IMAGES_NUMBER {
            return Err(Error::TooImagesLoaded);
        }

        Ok(Application { config: self.config, images, last_index_used: None, state: Loaded })
    }
}

impl Application<Loaded> {
    /// Prevents an empty schedule and sorts it, producing the only stage on
    /// which polling is possible.
    pub fn check(self) -> (r: AppResult<Application<Executable>>)
        ensures
            r is Ok <==> self.images_seq().len() >= 1,
            r is Err ==> r->Err_0 == Error::NoImagesLoaded,
            r is Ok ==> r->Ok_0.images_seq() == spec_sort(self.images_seq())
                && r->Ok_0.images_seq().len() == self.images_seq().len()
                && r->Ok_0.spec_cache() is None && r->Ok_0.spec_config() == self.spec_config()
                && r->Ok_0.wf(),
    {
        if self.images.len() == 0 {
            return Err(Error::NoImagesLoaded);
        }

        proof {
            lemma_sort_sorted(self.images@);
        }
        let sorted_images = sort_images(self.images);
        Ok(
            Application {
                config: self.config,
                images: sorted_images,
                last_index_used: None,
                state: Executable,
            },
        )
    }
}

/// What the fast branch of a poll decides, given the cached index `i` and
/// the current minute of the day `now`: `Some(k)` when the entry at `k` is
/// applied by that branch, `None` when the branch applies nothing.
pub open spec fn spec_fast(s: Seq<Image>, i: int, now: int) -> Option<int> {
    if s.len() == 1 {
        None
    } else if i + 1 < s.len() {
        if start_of(s, i + 1) <= now {
            Some(i + 1)
        } else {
            None
        }
    } else {
        if start_of(s, i) > now && start_of(s, 0) <= now {
            Some(0 as int)
        } else {
            None
        }
    }
}

/// The fast branch over an optional cache: it only runs when a previous
/// selection exists.
pub open spec fn spec_plan_fast(s: Seq<Image>, cache: Option<int>, now: int) -> Option<int> {
    match cache {
        Some(i) => spec_fast(s, i, now),
        None => None,
    }
}

/// The greatest index whose start does not exceed `now`, or `None` when
/// `now` precedes every start: what the full scan remembers.
pub open spec fn spec_last_active(s: Seq<Image>, now: int) -> Option<int>
    decreases s.len(),
{
    if s.len() == 0 {
        None
    } else if start_of(s, s.len() - 1) <= now {
        Some(s.len() - 1)
    } else {
        spec_last_active(s.drop_last(), now)
    }
}

/// The entry the full scan applies: the last qualifying one, or, in the
/// pre-dawn gap before the day's first start, the day's final entry.
pub open spec fn spec_scan_apply(s: Seq<Image>, now: int) -> int {
    match spec_last_active(s, now) {
        Some(j) => j,
        None => s.len() - 1,
    }
}

/// The cache value the full scan leaves behind. In the pre-dawn gap it is
/// index 0 even though the day's final entry was applied: the original
/// index/entry mismatch, kept literally.
pub open spec fn spec_scan_cache(s: Seq<Image>, now: int) -> int {
    match spec_last_active(s, now) {
        Some(j) => j,
        None => 0,
    }
}

/// The indices as mathematical integers.
pub open spec fn opt_index(o: Option<usize>) -> Option<int> {
    match o {
        Some(x) => Some(x as int),
        None => None,
    }
}

pub proof fn lemma_last_active_none(s: Seq<Image>, now: int)
    requires
        spec_last_active(s, now) is None,
    ensures
        forall|k: int| 0 <= k < s.len() ==> #[trigger] start_of(s, k) > now,
    decreases s.len(),
{
    if s.len() > 0 {
        lemma_last_active_none(s.drop_last(), now);
        assert(forall|k: int|
            0 <= k < s.len() - 1 ==> #[trigger] start_of(s, k) == start_of(s.drop_last(), k));
    }
}

pub proof fn lemma_last_active_some(s: Seq<Image>, now: int, j: int)
    requires
        spec_last_active(s, now) == Some(j),
    ensures
        0 <= j < s.len(),
        start_of(s, j) <= now,
        forall|k: int| j < k < s.len() ==> #[trigger] start_of(s, k) > now,
    decreases s.len(),
{
    if s.len() > 0 && !(start_of(s, s.len() - 1) <= now) {
        lemma_last_active_some(s.drop_last(), now, j);
        assert(forall|k: int|
            0 <= k < s.len() - 1 ==> #[trigger] start_of(s, k) == start_of(s.drop_last(), k));
    }
}

/// For any non-empty descriptor list shorter than the fixed capacity,
/// finalization yields a schedule sorted ascending by start time, holding a
/// permutation of the attached entries.
pub proof fn lemma_finalization_sorted(images: Seq<Image>)
    requires
        1 <= images.len() < MAX_IMAGES_NUMBER,
    ensures
        spec_sorted(spec_sort(images)),
        spec_sort(images).len() == images.len(),
        spec_sort(images).to_multiset() == images.to_multiset(),
{
    lemma_sort_sorted(images);
    lemma_sort_permutes(images);
}

/// On a sorted schedule the entry the scan remembers is the mathematically
/// active one: no qualifying entry starts later, and none qualifies after it.
pub proof fn lemma_scan_picks_greatest(s: Seq<Image>, now: int, j: int)
    requires
        spec_sorted(s),
        spec_last_active(s, now) == Some(j),
    ensures
        0 <= j < s.len(),
        start_of(s, j) <= now,
        forall|k: int| 0 <= k < s.len() && #[trigger] start_of(s, k) <= now ==> k <= j,
        forall|k: int|
            0 <= k < s.len() && #[trigger] start_of(s, k) <= now ==> start_of(s, k) <= start_of(
                s,
                j,
            ),
{
    lemma_last_active_some(s, now, j);
}

/// With a single-entry schedule a poll selects that entry whatever `now` is
/// and whatever the cache holds: the fast branch applies nothing and the
/// full scan both applies entry 0 and caches index 0.
pub proof fn lemma_single_entry_always_selected(s: Seq<Image>, cache: Option<int>, now: int)
    requires
        s.len() == 1,
    ensures
        spec_plan_fast(s, cache, now) is None,
        spec_scan_apply(s, now) == 0,
        spec_scan_cache(s, now) == 0,
{
    if start_of(s, 0) <= now {
        assert(spec_last_active(s, now) == Some(0 as int));
    } else {
        assert(s.drop_last().len() == 0);
        assert(spec_last_active(s.drop_last(), now) is None);
        assert(spec_last_active(s, now) is None);
    }
}

/// Idempotence of polling inside one active window: once a poll at `t1` has
/// cached the scan's index, a poll at any `t2` for which the scan remembers
/// the same outcome leaves everything as it was — its fast branch applies
/// nothing and its scan applies and caches the very same values.
pub proof fn lemma_poll_idempotent(s: Seq<Image>, t1: int, t2: int)
    requires
        s.len() >= 1,
        spec_last_active(s, t1) == spec_last_active(s, t2),
    ensures
        spec_plan_fast(s, Some(spec_scan_cache(s, t1)), t2) is None,
        spec_scan_apply(s, t2) == spec_scan_apply(s, t1),
        spec_scan_cache(s, t2) == spec_scan_cache(s, t1),
{
    match spec_last_active(s, t2) {
        Some(j) => {
            lemma_last_active_some(s, t2, j);
        },
        None => {
            lemma_last_active_none(s, t2);
        },
    }
}

/// One full poll's outcome: what the fast branch applies, what the full scan
/// applies, and the cache index the scan leaves behind. Both parts run, so
/// one poll may apply an entry twice; the plan records that literally.
#[derive(Debug, Clone, Copy, PartialEq, Eq)]
pub struct PollPlan {
    pub fast_apply: Option<usize>,
    pub scan_apply: usize,
    pub new_cache: usize,
}

impl Application<Executable> {
    /// What `check` guarantees and every later step preserves: a non-empty,
    /// ascending schedule, with any cached index in range.
    pub open spec fn wf(&self) -> bool {
        &&& self.images_seq().len() >= 1
        &&& spec_sorted(self.images_seq())
        &&& match self.spec_cache() {
            Some(i) => i < self.images_seq().len(),
            None => true,
        }
    }

    pub fn images_len(&self) -> (r: usize)
        ensures
            r == self.images_seq().len(),
    {
        self.images.len()
    }

    pub fn image(&self, index: usize) -> (r: &Image)
        requires
            index < self.images_seq().len(),
        ensures
            *r == self.images_seq()[index as int],
    {
        &self.images[index]
    }

    pub fn last_index(&self) -> (r: Option<usize>)
        ensures
            r == self.spec_cache(),
    {
        self.last_index_used
    }

    /// The fast branch: tries the entry after the cached one, or, past the
    /// day's last entry, the wraparound to the first.
    pub fn fast_selection(&self, last_index: usize, now: ImageStartTime) -> (r: Option<usize>)
        requires
            self.wf(),
            last_index < self.images_seq().len(),
        ensures
            opt_index(r) == spec_fast(self.images_seq(), last_index as int, now.value()),
    {
        if self.images.len() == 1 {
            return None;
        }

        if last_index + 1 < self.images.len() {
            let next_image = &self.images[last_index + 1];
            if next_image.start().minutes_of_day() <= now.minutes_of_day() {
                return Some(last_index + 1);
            }
            return None;
        }

        let first_image = &self.images[0];
        let last_image = &self.images[last_index];
        if last_image.start().minutes_of_day() > now.minutes_of_day()
            && first_image.start().minutes_of_day() <= now.minutes_of_day() {
            return Some(0);
        }

        None
    }

    /// The unconditional full scan: remembers the last entry whose start is
    /// at or before `now`; in the pre-dawn gap it falls back to the day's
    /// final entry while caching index 0.
    pub fn scan_selection(&self, now: ImageStartTime) -> (r: (usize, usize))
        requires
            self.wf(),
        ensures
            r.0 == spec_scan_apply(self.images_seq(), now.value()),
            r.1 == spec_scan_cache(self.images_seq(), now.value()),
            r.0 < self.images_seq().len(),
            r.1 < self.images_seq().len(),
    {
        let ghost s = self.images@;
        let now_v = now.minutes_of_day();
        let mut last_coincident: Option<usize> = None;
        let mut index: usize = 0;
        while index < self.images.len()
            invariant
                self.wf(),
                s == self.images@,
                now_v == now.value(),
                index <= s.len(),
                opt_index(last_coincident) == spec_last_active(s.take(index as int), now.value()),
            decreases s.len() - index,
        {
            if self.images[index].start().minutes_of_day() <= now_v {
                last_coincident = Some(index);
            }
            proof {
                assert(s.take(index + 1).drop_last() =~= s.take(index as int));
                assert(s.take(index + 1).last() == s[index as int]);
            }
            index = index + 1;
        }
        proof {
            assert(s.take(index as int) =~= s);
            if let Some(j) = last_coincident {
                lemma_last_active_some(s, now.value(), j as int);
            }
        }
        match last_coincident {
            Some(j) => (j, j),
            None => (self.images.len() - 1, 0),
        }
    }

    /// One poll's whole decision at time `now`: the fast branch, then the
    /// unconditional full scan.
    pub fn plan(&self, now: ImageStartTime) -> (r: PollPlan)
        requires
            self.wf(),
        ensures
            opt_index(r.fast_apply) == spec_plan_fast(
                self.images_seq(),
                opt_index(self.spec_cache()),
                now.value(),
            ),
            r.scan_apply == spec_scan_apply(self.images_seq(), now.value()),
            r.new_cache == spec_scan_cache(self.images_seq(), now.value()),
            r.fast_apply is Some ==> r.fast_apply->0 < self.images_seq().len(),
            r.scan_apply < self.images_seq().len(),
            r.new_cache < self.images_seq().len(),
    {
        let fast_apply = match self.last_index_used {
            Some(last_index) => self.fast_selection(last_index, now),
            None => None,
        };
        let (scan_apply, new_cache) = self.scan_selection(now);
        PollPlan { fast_apply, scan_apply, new_cache }
    }

    /// Reads the wall clock and plans the poll for the time it gave.
    pub fn poll(&self) -> (r: (ImageStartTime, PollPlan))
        requires
            self.wf(),
        ensures
            r.0.wf(),
            opt_index(r.1.fast_apply) == spec_plan_fast(
                self.images_seq(),
                opt_index(self.spec_cache()),
                r.0.value(),
            ),
            r.1.scan_apply == spec_scan_apply(self.images_seq(), r.0.value()),
            r.1.new_cache == spec_scan_cache(self.images_seq(), r.0.value()),
            r.1.scan_apply < self.images_seq().len(),
            r.1.new_cache < self.images_seq().len(),
    {
        let now = crate::image::current_time();
        let plan = self.plan(now);
        (now, plan)
    }

    /// Records the full scan's cache index, once the caller has applied the
    /// planned entries without error.
    pub fn commit_selection(&mut self, index: usize)
        requires
            old(self).wf(),
            index < old(self).images_seq().len(),
        ensures
            final(self).wf(),
            final(self).spec_cache() == Some(index),
            final(self).images_seq() == old(self).images_seq(),
            final(self).spec_config() == old(self).spec_config(),
    {
        self.last_index_used = Some(index);
    }
}

} // verus!
