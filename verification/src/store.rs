//! The persistent store's relational semantics: albums with their ordered
//! tracks, the durable work queue, and the exclusion patterns.
//!
//! This type is the in-memory meaning of the backing database.  Every
//! operation's effect is pinned down over a mathematical view, so resumption
//! and idempotence arguments elsewhere in the library rest on these
//! contracts.  Durability itself (the database file) is the caller's
//! concern: a persistent wrapper mirrors each mutating call.

use vstd::pervasive::VecAdditionalExecFns;
use vstd::prelude::*;

use crate::model::{spec_anchored, Album, AlbumV, Blacklist};
use crate::util;

verus! {

/// Mathematical view of a queue entry.
pub ghost struct QueueEntryV {
    pub action: Seq<char>,
    pub url: Seq<char>,
    pub result: Option<Seq<char>>,
    pub result_date: Option<Seq<char>>,
}

/// A unit of deferred work: an action tag and a URL, with an outcome and its
/// timestamp once the work is done.  Both `None` means pending.
#[derive(Debug)]
pub struct QueueEntry {
    pub action: String,
    pub url: String,
    pub result: Option<String>,
    pub result_date: Option<String>,
}

impl View for QueueEntry {
    type V = QueueEntryV;

    open spec fn view(&self) -> QueueEntryV {
        QueueEntryV {
            action: self.action@,
            url: self.url@,
            result: crate::model::opt_view(self.result),
            result_date: crate::model::opt_view(self.result_date),
        }
    }
}

/// Mathematical view of the whole store.
pub ghost struct StoreV {
    pub albums: Seq<AlbumV>,
    pub queue: Seq<QueueEntryV>,
    pub artist_patterns: Seq<Seq<char>>,
    pub label_patterns: Seq<Seq<char>>,
}

/// Durable state for the pipeline: the album/track graph, the work queue,
/// and the operator-managed exclusion patterns.
pub struct Store {
    albums: Vec<Album>,
    queue: Vec<QueueEntry>,
    artist_patterns: Vec<String>,
    label_patterns: Vec<String>,
}

impl View for Store {
    type V = StoreV;

    closed spec fn view(&self) -> StoreV {
        StoreV {
            albums: self.albums@.map_values(|a: Album| a@),
            queue: self.queue@.map_values(|q: QueueEntry| q@),
            artist_patterns: self.artist_patterns.deep_view(),
            label_patterns: self.label_patterns.deep_view(),
        }
    }
}

/// The first stored album with the given URL.
pub open spec fn find_album(albums: Seq<AlbumV>, url: Seq<char>) -> Option<AlbumV>
    decreases albums.len(),
{
    if albums.len() == 0 {
        Option::None
    } else if albums[0].url == url {
        Option::Some(albums[0])
    } else {
        find_album(albums.drop_first(), url)
    }
}

/// Every stored album with the given URL, in order.
pub open spec fn matching_albums(albums: Seq<AlbumV>, url: Seq<char>) -> Seq<AlbumV>
    decreases albums.len(),
{
    if albums.len() == 0 {
        Seq::empty()
    } else if albums[0].url == url {
        seq![albums[0]].add(matching_albums(albums.drop_first(), url))
    } else {
        matching_albums(albums.drop_first(), url)
    }
}

/// The album table after an upsert: the record with the album's URL is
/// replaced in place, or the album is appended if its URL is new.
pub open spec fn spec_save(albums: Seq<AlbumV>, a: AlbumV) -> Seq<AlbumV>
    decreases albums.len(),
{
    if albums.len() == 0 {
        seq![a]
    } else if albums[0].url == a.url {
        albums.update(0, a)
    } else {
        seq![albums[0]].add(spec_save(albums.drop_first(), a))
    }
}

/// A fresh pending entry.
pub open spec fn pending_entry(action: Seq<char>, url: Seq<char>) -> QueueEntryV {
    QueueEntryV { action, url, result: Option::None, result_date: Option::None }
}

/// The queue with every entry for the pair removed.
pub open spec fn spec_queue_remove(
    q: Seq<QueueEntryV>,
    action: Seq<char>,
    url: Seq<char>,
) -> Seq<QueueEntryV>
    decreases q.len(),
{
    if q.len() == 0 {
        Seq::empty()
    } else if q[0].action == action && q[0].url == url {
        spec_queue_remove(q.drop_first(), action, url)
    } else {
        seq![q[0]].add(spec_queue_remove(q.drop_first(), action, url))
    }
}

/// The queue after inserting the pair as pending: any previous entry for the
/// pair is dropped and a fresh pending entry appended, so a re-inserted item
/// goes to the back of the insertion order and is pending again.
pub open spec fn spec_queue_insert(q: Seq<QueueEntryV>, url: Seq<char>) -> Seq<QueueEntryV> {
    spec_queue_remove(q, "url"@, url).push(pending_entry("url"@, url))
}

/// The oldest pending entry, by insertion order.
pub open spec fn spec_queue_get(q: Seq<QueueEntryV>) -> Option<(Seq<char>, Seq<char>)>
    decreases q.len(),
{
    if q.len() == 0 {
        Option::None
    } else if q[0].result is None {
        Option::Some((q[0].action, q[0].url))
    } else {
        spec_queue_get(q.drop_first())
    }
}

/// The queue after stamping the pair's entry with an outcome and a
/// timestamp; entries for other pairs are untouched.
pub open spec fn spec_queue_result(
    q: Seq<QueueEntryV>,
    action: Seq<char>,
    url: Seq<char>,
    result: Seq<char>,
    date: Seq<char>,
) -> Seq<QueueEntryV> {
    q.map_values(
        |e: QueueEntryV|
            if e.action == action && e.url == url {
                QueueEntryV {
                    action: e.action,
                    url: e.url,
                    result: Option::Some(result),
                    result_date: Option::Some(date),
                }
            } else {
                e
            },
    )
}

/// Whether the pair has a pending entry.
pub open spec fn pending_for(q: Seq<QueueEntryV>, action: Seq<char>, url: Seq<char>) -> bool {
    exists|i: int|
        0 <= i < q.len() && q[i].action == action && q[i].url == url && q[i].result is None
}

/// No two stored albums share a URL.
pub open spec fn urls_unique(albums: Seq<AlbumV>) -> bool {
    forall|i: int, j: int| 0 <= i < j < albums.len() ==> albums[i].url != albums[j].url
}

/// No two queue entries share an (action, url) pair.
pub open spec fn pairs_unique(q: Seq<QueueEntryV>) -> bool {
    forall|i: int, j: int|
        0 <= i < j < q.len() ==> !(q[i].action == q[j].action && q[i].url == q[j].url)
}

/// Whether every stored exclusion pattern, once anchored, compiles.
pub open spec fn spec_patterns_compile(s: StoreV) -> bool {
    crate::model::spec_all_compile(s.artist_patterns) && crate::model::spec_all_compile(
        s.label_patterns,
    )
}

/// Whether the stored exclusion patterns exclude the album: some album
/// label fully matches some label pattern, or some track artist fully
/// matches some artist pattern (case-insensitive, whole string).
pub open spec fn store_excludes(s: StoreV, a: AlbumV) -> bool {
    ||| crate::model::spec_any_match(
        s.label_patterns.map_values(|p: Seq<char>| spec_anchored(p)),
        a.labels,
    )
    ||| crate::model::spec_any_match(
        s.artist_patterns.map_values(|p: Seq<char>| spec_anchored(p)),
        crate::model::spec_track_artists(a.tracks),
    )
}

impl Store {
    /// The store's well-formedness: album URLs unique, queue pairs unique.
    pub open spec fn wf(&self) -> bool {
        urls_unique(self@.albums) && pairs_unique(self@.queue)
    }

    /// An empty store.
    pub fn new() -> (s: Store)
        ensures
            s@.albums =~= Seq::<AlbumV>::empty(),
            s@.queue =~= Seq::<QueueEntryV>::empty(),
            s@.artist_patterns =~= Seq::<Seq<char>>::empty(),
            s@.label_patterns =~= Seq::<Seq<char>>::empty(),
            s.wf(),
    {
        Store {
            albums: Vec::new(),
            queue: Vec::new(),
            artist_patterns: Vec::new(),
            label_patterns: Vec::new(),
        }
    }

    /// Reads the album stored under the URL, with its tracks in order:
    /// `None` when the URL is unknown, the record when exactly one row
    /// matches, and a consistency error when more than one does — a
    /// uniqueness violation is corruption and is reported, never silently
    /// resolved.  (The well-formedness invariant rules duplicates out, so
    /// on a well-formed store this never fails.)
    pub fn get_album(&self, url: &str) -> (r: Result<Option<Album>, util::Error>)
        ensures
            matching_albums(self@.albums, url@).len() == 0 ==> (r matches Ok(o) && o is None),
            matching_albums(self@.albums, url@).len() == 1 ==> (r matches Ok(o) && o is Some
                && crate::model::opt_view_album(o) == find_album(self@.albums, url@)),
            matching_albums(self@.albums, url@).len() > 1 ==> (r matches Err(e)
                && e.msg_spec() == "Query returned more than one result"@
                && !e.retryable_spec()),
            self.wf() ==> r is Ok,
    {
        let ghost ms = matching_albums(self@.albums, url@);
        let u: String = url.to_owned();
        let mut found: Vec<Album> = Vec::new();
        let mut i: usize = 0;
        proof {
            assert(self@.albums.take(0) =~= Seq::<AlbumV>::empty());
            assert(found@.map_values(|a: Album| a@) =~= matching_albums(
                self@.albums.take(0),
                url@,
            ));
        }
        while i < self.albums.len()
            invariant
                i <= self.albums.len(),
                u@ == url@,
                found@.map_values(|a: Album| a@) =~= matching_albums(
                    self@.albums.take(i as int),
                    url@,
                ),
            decreases self.albums.len() - i,
        {
            if self.albums[i].url == u {
                found.push(self.albums[i].duplicate());
            }
            proof {
                lemma_matching_take_step(self@.albums, url@, i as int);
            }
            i = i + 1;
        }
        proof {
            assert(self@.albums.take(self.albums.len() as int) =~= self@.albums);
            if ms.len() == 1 {
                lemma_find_album_is_first_match(self@.albums, url@);
            }
            if self.wf() {
                lemma_unique_matching_at_most_one(self@.albums, url@);
            }
        }
        at_most_one(found)
    }

    /// Upserts the album by URL.  A prior record under the same URL is
    /// replaced whole — its track rows are discarded and the album's current
    /// track list stored in order — so a reader never observes a partial
    /// track set.  The queue and the patterns are untouched.
    pub fn save(&mut self, album: &Album) -> (r: Result<(), util::Error>)
        requires
            old(self).wf(),
        ensures
            r is Ok,
            final(self)@.albums == spec_save(old(self)@.albums, album@),
            final(self)@.queue == old(self)@.queue,
            final(self)@.artist_patterns == old(self)@.artist_patterns,
            final(self)@.label_patterns == old(self)@.label_patterns,
            final(self).wf(),
    {
        let mut i: usize = 0;
        while i < self.albums.len()
            invariant
                i <= self.albums.len(),
                *self == *old(self),
                old(self).wf(),
                forall|j: int| 0 <= j < i ==> self@.albums[j].url != album@.url,
            decreases self.albums.len() - i,
        {
            if self.albums[i].url == album.url {
                proof {
                    lemma_spec_save_at(self@.albums, album@, i as int);
                }
                let ghost prev = self@;
                self.albums.set(i, album.duplicate());
                proof {
                    assert(self@.albums =~= prev.albums.update(i as int, album@));
                    assert(self@.queue =~= prev.queue);
                    assert(urls_unique(prev.albums));
                    assert(album@.url == prev.albums[i as int].url);
                    assert forall|x: int, y: int|
                        0 <= x < y < self@.albums.len() implies self@.albums[x].url
                        != self@.albums[y].url by {
                        assert(prev.albums[x].url != prev.albums[y].url);
                        assert(self@.albums[x].url == prev.albums[x].url);
                        assert(self@.albums[y].url == prev.albums[y].url);
                    }
                }
                return Ok(());
            }
            i = i + 1;
        }
        let ghost prev = self@;
        self.albums.push(album.duplicate());
        proof {
            lemma_spec_save_absent(prev.albums, album@);
            assert(self@.albums =~= prev.albums.push(album@));
            assert(self@.queue =~= prev.queue);
        }
        Ok(())
    }

    /// Inserts (or re-inserts) a pending entry for the pair ("url", `url`).
    /// Re-inserting an existing pair resets it to pending, at the back of
    /// the insertion order.
    pub fn queue_insert(&mut self, url: &str) -> (r: Result<(), util::Error>)
        requires
            old(self).wf(),
        ensures
            r is Ok,
            final(self)@.queue == spec_queue_insert(old(self)@.queue, url@),
            final(self)@.albums == old(self)@.albums,
            final(self)@.artist_patterns == old(self)@.artist_patterns,
            final(self)@.label_patterns == old(self)@.label_patterns,
            final(self).wf(),
    {
        let action: String = String::from_str("url");
        let u: String = url.to_owned();
        let mut kept: Vec<QueueEntry> = Vec::new();
        let mut i: usize = 0;
        proof {
            assert(self@.queue.take(0) =~= Seq::<QueueEntryV>::empty());
        }
        while i < self.queue.len()
            invariant
                i <= self.queue.len(),
                *self == *old(self),
                action@ == "url"@,
                u@ == url@,
                kept@.map_values(|q: QueueEntry| q@) =~= spec_queue_remove(
                    self@.queue.take(i as int),
                    "url"@,
                    url@,
                ),
            decreases self.queue.len() - i,
        {
            let e = &self.queue[i];
            let matches_pair = e.action == action && e.url == u;
            if !matches_pair {
                kept.push(duplicate_entry(e));
            }
            proof {
                lemma_queue_remove_take_step(self@.queue, "url"@, url@, i as int);
                assert(kept@.map_values(|q: QueueEntry| q@) =~= spec_queue_remove(
                    self@.queue.take(i + 1),
                    "url"@,
                    url@,
                ));
            }
            i = i + 1;
        }
        proof {
            assert(self@.queue.take(self.queue.len() as int) =~= self@.queue);
        }
        kept.push(QueueEntry { action, url: u, result: Option::None, result_date: Option::None });
        let ghost prev = self@;
        self.queue = kept;
        proof {
            assert(self@.queue =~= spec_queue_insert(prev.queue, url@));
            assert(self@.albums =~= prev.albums);
            lemma_queue_insert_preserves_unique(prev.queue, url@);
        }
        Ok(())
    }

    /// Returns the oldest pending entry (lowest insertion order), or `None`
    /// once the queue is drained.
    pub fn queue_get(&self) -> (r: Result<Option<(String, String)>, util::Error>)
        ensures
            r matches Ok(o) ==> (match o {
                Option::None => spec_queue_get(self@.queue) is None,
                Option::Some(p) => spec_queue_get(self@.queue) == Option::Some((p.0@, p.1@)),
            }),
            r is Ok,
    {
        let mut i: usize = 0;
        while i < self.queue.len()
            invariant
                i <= self.queue.len(),
                forall|j: int| 0 <= j < i ==> self@.queue[j].result is Some,
            decreases self.queue.len() - i,
        {
            if self.queue[i].result.is_none() {
                proof {
                    lemma_queue_get_at(self@.queue, i as int);
                }
                return Ok(
                    Option::Some((self.queue[i].action.clone(), self.queue[i].url.clone())),
                );
            }
            proof {
                assert(self@.queue[i as int].result is Some);
            }
            i = i + 1;
        }
        proof {
            lemma_queue_get_none(self@.queue);
        }
        Ok(Option::None)
    }

    /// Stamps the entry for the (action, url) pair with the outcome text and
    /// the current time.  Entries for other pairs are untouched; a missing
    /// pair is a no-op.
    pub fn queue_result(&mut self, action: String, url: String, result: String) -> (r: Result<
        (),
        util::Error,
    >)
        requires
            old(self).wf(),
        ensures
            r is Ok,
            exists|date: Seq<char>|
                final(self)@.queue == spec_queue_result(
                    old(self)@.queue,
                    action@,
                    url@,
                    result@,
                    date,
                ),
            final(self)@.albums == old(self)@.albums,
            final(self)@.artist_patterns == old(self)@.artist_patterns,
            final(self)@.label_patterns == old(self)@.label_patterns,
            final(self).wf(),
    {
        let date = now_string();
        let ghost d: Seq<char> = date@;
        let ghost target = spec_queue_result(old(self)@.queue, action@, url@, result@, d);
        let mut i: usize = 0;
        while i < self.queue.len()
            invariant
                i <= self.queue.len(),
                self.queue.len() == old(self).queue.len(),
                d == date@,
                target == spec_queue_result(old(self)@.queue, action@, url@, result@, d),
                self@.albums == old(self)@.albums,
                self@.artist_patterns == old(self)@.artist_patterns,
                self@.label_patterns == old(self)@.label_patterns,
                forall|j: int| 0 <= j < i ==> self@.queue[j] == target[j],
                forall|j: int| i <= j < self.queue.len() ==> self@.queue[j] == old(self)@.queue[j],
            decreases self.queue.len() - i,
        {
            let matches_pair = self.queue[i].action == action && self.queue[i].url == url;
            if matches_pair {
                let stamped = QueueEntry {
                    action: self.queue[i].action.clone(),
                    url: self.queue[i].url.clone(),
                    result: Option::Some(result.clone()),
                    result_date: Option::Some(date.clone()),
                };
                let ghost prev = self@;
                self.queue.set(i, stamped);
                proof {
                    assert(self@.queue =~= prev.queue.update(i as int, stamped@));
                    assert(self@.albums =~= prev.albums);
                    assert(self@.queue[i as int] == target[i as int]);
                }
            } else {
                proof {
                    assert(self@.queue[i as int] == target[i as int]);
                }
            }
            i = i + 1;
        }
        proof {
            assert(self@.queue =~= target);
            lemma_queue_result_preserves_unique(old(self)@.queue, action@, url@, result@, d);
        }
        Ok(())
    }

    /// Loads and compiles all exclusion patterns into a filter: succeeds
    /// exactly when every stored pattern compiles once anchored.
    pub fn blacklist(&self) -> (r: Result<Blacklist, util::Error>)
        ensures
            r is Ok <==> spec_patterns_compile(self@),
            r matches Ok(b) ==> {
                &&& b.artists_spec().len() == self@.artist_patterns.len()
                &&& forall|i: int|
                    0 <= i < self@.artist_patterns.len() ==> b.artists_spec()[i] == spec_anchored(
                        self@.artist_patterns[i],
                    )
                &&& b.labels_spec().len() == self@.label_patterns.len()
                &&& forall|i: int|
                    0 <= i < self@.label_patterns.len() ==> b.labels_spec()[i] == spec_anchored(
                        self@.label_patterns[i],
                    )
            },
    {
        Blacklist::new(&self.artist_patterns, &self.label_patterns)
    }

    /// Records an operator-managed exclusion pattern.  `kind` must be
    /// "artist" or "label"; any other kind is a configuration error.  The
    /// (kind, pattern) pair is unique: re-adding an existing pattern is a
    /// no-op.
    pub fn blacklist_insert(&mut self, kind: &str, pattern: &str) -> (r: Result<(), util::Error>)
        requires
            old(self).wf(),
        ensures
            r is Ok <==> (kind@ == "artist"@ || kind@ == "label"@),
            final(self)@.albums == old(self)@.albums,
            final(self)@.queue == old(self)@.queue,
            kind@ == "artist"@ ==> {
                &&& final(self)@.artist_patterns == (if old(self)@.artist_patterns.contains(
                    pattern@,
                ) {
                    old(self)@.artist_patterns
                } else {
                    old(self)@.artist_patterns.push(pattern@)
                })
                &&& final(self)@.label_patterns == old(self)@.label_patterns
            },
            kind@ == "label"@ ==> {
                &&& final(self)@.label_patterns == (if old(self)@.label_patterns.contains(
                    pattern@,
                ) {
                    old(self)@.label_patterns
                } else {
                    old(self)@.label_patterns.push(pattern@)
                })
                &&& final(self)@.artist_patterns == old(self)@.artist_patterns
            },
            !(kind@ == "artist"@ || kind@ == "label"@) ==> final(self)@ == old(self)@,
            final(self).wf(),
    {
        proof {
            reveal_strlit("artist");
            reveal_strlit("label");
            assert("artist"@.len() == 6);
            assert("label"@.len() == 5);
            assert("artist"@ != "label"@);
        }
        let artist_kind = String::from_str("artist");
        let label_kind = String::from_str("label");
        let k: String = kind.to_owned();
        if k == artist_kind {
            if !contains_string(&self.artist_patterns, pattern) {
                let ghost prev = self@;
                self.artist_patterns.push(pattern.to_owned());
                proof {
                    assert(self@.artist_patterns =~= prev.artist_patterns.push(pattern@));
                    assert(self@.albums =~= prev.albums);
                    assert(self@.queue =~= prev.queue);
                    assert(self@.label_patterns =~= prev.label_patterns);
                }
            }
            Ok(())
        } else if k == label_kind {
            if !contains_string(&self.label_patterns, pattern) {
                let ghost prev = self@;
                self.label_patterns.push(pattern.to_owned());
                proof {
                    assert(self@.label_patterns =~= prev.label_patterns.push(pattern@));
                    assert(self@.albums =~= prev.albums);
                    assert(self@.queue =~= prev.queue);
                    assert(self@.artist_patterns =~= prev.artist_patterns);
                }
            }
            Ok(())
        } else {
            Err(util::Error::new("Unknown exclusion pattern kind"))
        }
    }
}

/// Whether the vector holds the string.
fn contains_string(v: &Vec<String>, s: &str) -> (r: bool)
    ensures
        r == v.deep_view().contains(s@),
{
    let needle: String = s.to_owned();
    let mut i: usize = 0;
    while i < v.len()
        invariant
            i <= v.len(),
            needle@ == s@,
            forall|j: int| 0 <= j < i ==> v.deep_view()[j] != s@,
        decreases v.len() - i,
    {
        if v[i] == needle {
            proof {
                assert(v.deep_view()[i as int] == s@);
            }
            return true;
        }
        i = i + 1;
    }
    proof {
        if v.deep_view().contains(s@) {
            let j = choose|j: int| 0 <= j < v.deep_view().len() && v.deep_view()[j] == s@;
            assert(false);
        }
    }
    false
}

/// The query-consistency guard: no row is `None`, exactly one row is that
/// row, and more than one row is a consistency error — a uniqueness
/// violation is reported, never resolved into some row.
pub fn at_most_one(mut items: Vec<Album>) -> (r: Result<Option<Album>, util::Error>)
    ensures
        items@.len() == 0 ==> (r matches Ok(o) && o is None),
        items@.len() == 1 ==> (r matches Ok(o) && (match o {
            Option::Some(x) => x@ == items@[0]@,
            Option::None => false,
        })),
        items@.len() > 1 ==> (r matches Err(e) && e.msg_spec()
            == "Query returned more than one result"@ && !e.retryable_spec()),
{
    if items.len() == 0 {
        Ok(Option::None)
    } else if items.len() == 1 {
        let x = items.pop().unwrap();
        Ok(Option::Some(x))
    } else {
        Err(util::Error::new("Query returned more than one result"))
    }
}

/// A field-for-field copy of a queue entry.
fn duplicate_entry(e: &QueueEntry) -> (r: QueueEntry)
    ensures
        r@ == e@,
{
    QueueEntry {
        action: e.action.clone(),
        url: e.url.clone(),
        result: crate::model::clone_opt_string(&e.result),
        result_date: crate::model::clone_opt_string(&e.result_date),
    }
}

/// Relies on `chrono::Local::now`: the current local date and time, rendered
/// in RFC 3339 form.  The value depends on the clock; nothing is promised of
/// it.
#[verifier::external_body]
fn now_string() -> (r: String) {
    chrono::Local::now().to_rfc3339()
}

// ---------------------------------------------------------------------------
// Lemmas about the album table.
// ---------------------------------------------------------------------------
/// Index of the first album with the URL, or -1 if the URL is absent.
pub open spec fn first_url_index(albums: Seq<AlbumV>, url: Seq<char>) -> int
    decreases albums.len(),
{
    if albums.len() == 0 {
        -1
    } else if albums[0].url == url {
        0
    } else {
        let r = first_url_index(albums.drop_first(), url);
        if r < 0 {
            -1
        } else {
            1 + r
        }
    }
}

proof fn lemma_first_url_index(albums: Seq<AlbumV>, url: Seq<char>)
    ensures
        first_url_index(albums, url) >= 0 ==> {
            let i = first_url_index(albums, url);
            &&& 0 <= i < albums.len()
            &&& albums[i].url == url
            &&& forall|j: int| 0 <= j < i ==> albums[j].url != url
        },
        first_url_index(albums, url) < 0 ==> forall|j: int|
            0 <= j < albums.len() ==> albums[j].url != url,
    decreases albums.len(),
{
    if albums.len() > 0 {
        assert(forall|j: int| 1 <= j < albums.len() ==> albums[j] == albums.drop_first()[j - 1]);
        if albums[0].url != url {
            lemma_first_url_index(albums.drop_first(), url);
        }
    }
}

proof fn lemma_matching_take_step(albums: Seq<AlbumV>, url: Seq<char>, i: int)
    requires
        0 <= i < albums.len(),
    ensures
        matching_albums(albums.take(i + 1), url) == if albums[i].url == url {
            matching_albums(albums.take(i), url).push(albums[i])
        } else {
            matching_albums(albums.take(i), url)
        },
    decreases i,
{
    if i == 0 {
        assert(albums.take(0) =~= Seq::<AlbumV>::empty());
        assert(albums.take(1) =~= seq![albums[0]]);
        assert(seq![albums[0]].drop_first() =~= Seq::<AlbumV>::empty());
        if albums[0].url == url {
            assert(matching_albums(albums.take(1), url) =~= matching_albums(
                albums.take(0),
                url,
            ).push(albums[0]));
        }
    } else {
        lemma_matching_take_step(albums.drop_first(), url, i - 1);
        assert(albums.take(i + 1).drop_first() =~= albums.drop_first().take(i));
        assert(albums.take(i).drop_first() =~= albums.drop_first().take(i - 1));
        assert(albums.take(i + 1)[0] == albums[0]);
        assert(albums.take(i)[0] == albums[0]);
        assert(albums.drop_first()[i - 1] == albums[i]);
        if albums[0].url == url {
            if albums[i].url == url {
                assert(matching_albums(albums.take(i + 1), url) =~= matching_albums(
                    albums.take(i),
                    url,
                ).push(albums[i]));
            } else {
                assert(matching_albums(albums.take(i + 1), url) =~= matching_albums(
                    albums.take(i),
                    url,
                ));
            }
        }
    }
}

/// With no match, `find_album` yields nothing.
pub proof fn lemma_no_match_find_none(albums: Seq<AlbumV>, url: Seq<char>)
    requires
        matching_albums(albums, url).len() == 0,
    ensures
        find_album(albums, url) is None,
    decreases albums.len(),
{
    if albums.len() > 0 {
        if albums[0].url == url {
            assert(matching_albums(albums, url).len() >= 1);
        } else {
            lemma_no_match_find_none(albums.drop_first(), url);
        }
    }
}

/// With at least one match, `find_album` yields the first one.
proof fn lemma_find_album_is_first_match(albums: Seq<AlbumV>, url: Seq<char>)
    requires
        matching_albums(albums, url).len() > 0,
    ensures
        find_album(albums, url) == Option::Some(matching_albums(albums, url)[0]),
    decreases albums.len(),
{
    if albums.len() > 0 && albums[0].url != url {
        lemma_find_album_is_first_match(albums.drop_first(), url);
    }
}

/// Unique URLs leave at most one match per URL.
proof fn lemma_unique_matching_at_most_one(albums: Seq<AlbumV>, url: Seq<char>)
    requires
        urls_unique(albums),
    ensures
        matching_albums(albums, url).len() <= 1,
    decreases albums.len(),
{
    if albums.len() > 0 {
        assert(forall|j: int| 1 <= j < albums.len() ==> albums[j] == albums.drop_first()[j - 1]);
        assert(urls_unique(albums.drop_first()));
        lemma_unique_matching_at_most_one(albums.drop_first(), url);
        if albums[0].url == url {
            assert(forall|j: int| 0 < j < albums.len() ==> albums[j].url != url);
            lemma_matching_none(albums.drop_first(), url);
        }
    }
}

proof fn lemma_matching_none(albums: Seq<AlbumV>, url: Seq<char>)
    requires
        forall|j: int| 0 <= j < albums.len() ==> albums[j].url != url,
    ensures
        matching_albums(albums, url).len() == 0,
    decreases albums.len(),
{
    if albums.len() > 0 {
        lemma_matching_none(albums.drop_first(), url);
    }
}

proof fn lemma_find_album_at(albums: Seq<AlbumV>, url: Seq<char>, i: int)
    requires
        0 <= i < albums.len(),
        albums[i].url == url,
        forall|j: int| 0 <= j < i ==> albums[j].url != url,
    ensures
        find_album(albums, url) == Option::Some(albums[i]),
    decreases i,
{
    if i > 0 {
        lemma_find_album_at(albums.drop_first(), url, i - 1);
    }
}

proof fn lemma_spec_save_at(albums: Seq<AlbumV>, a: AlbumV, i: int)
    requires
        0 <= i < albums.len(),
        albums[i].url == a.url,
        forall|j: int| 0 <= j < i ==> albums[j].url != a.url,
    ensures
        spec_save(albums, a) == albums.update(i, a),
    decreases i,
{
    if i == 0 {
    } else {
        lemma_spec_save_at(albums.drop_first(), a, i - 1);
        assert(spec_save(albums, a) =~= albums.update(i, a));
    }
}

proof fn lemma_spec_save_absent(albums: Seq<AlbumV>, a: AlbumV)
    requires
        forall|j: int| 0 <= j < albums.len() ==> albums[j].url != a.url,
    ensures
        spec_save(albums, a) == albums.push(a),
    decreases albums.len(),
{
    if albums.len() == 0 {
        assert(spec_save(albums, a) =~= albums.push(a));
    } else {
        lemma_spec_save_absent(albums.drop_first(), a);
        assert(spec_save(albums, a) =~= albums.push(a));
    }
}

/// Saving an album and then loading by its URL yields the album itself,
/// field for field, its track order included, for any track count.
pub proof fn lemma_save_then_get(albums: Seq<AlbumV>, a: AlbumV)
    requires
        urls_unique(albums),
    ensures
        find_album(spec_save(albums, a), a.url) == Option::Some(a),
{
    lemma_first_url_index(albums, a.url);
    let i = first_url_index(albums, a.url);
    if i >= 0 {
        lemma_spec_save_at(albums, a, i);
        lemma_find_album_at(albums.update(i, a), a.url, i);
    } else {
        lemma_spec_save_absent(albums, a);
        lemma_find_album_at(albums.push(a), a.url, albums.len() as int);
    }
}

/// Saving one album leaves every other URL's record unchanged.
pub proof fn lemma_save_preserves_others(albums: Seq<AlbumV>, a: AlbumV, url: Seq<char>)
    requires
        url != a.url,
    ensures
        find_album(spec_save(albums, a), url) == find_album(albums, url),
    decreases albums.len(),
{
    if albums.len() == 0 {
        assert(seq![a].drop_first() =~= Seq::<AlbumV>::empty());
        assert(find_album(Seq::<AlbumV>::empty(), url) is None);
        assert(find_album(seq![a], url) is None);
        assert(find_album(albums, url) is None);
    } else if albums[0].url == a.url {
        assert(spec_save(albums, a) == albums.update(0, a));
        assert(albums.update(0, a).drop_first() =~= albums.drop_first());
    } else {
        lemma_save_preserves_others(albums.drop_first(), a, url);
        let s = seq![albums[0]].add(spec_save(albums.drop_first(), a));
        assert(s == spec_save(albums, a));
        assert(s.len() == 1 + spec_save(albums.drop_first(), a).len());
        assert(s.drop_first() =~= spec_save(albums.drop_first(), a));
        assert(s[0] == albums[0]);
        if albums[0].url == url {
            assert(find_album(s, url) == Option::Some(albums[0]));
            assert(find_album(albums, url) == Option::Some(albums[0]));
        }
    }
}

/// An upsert keeps URLs unique.
pub proof fn lemma_save_preserves_unique(albums: Seq<AlbumV>, a: AlbumV)
    requires
        urls_unique(albums),
    ensures
        urls_unique(spec_save(albums, a)),
{
    lemma_first_url_index(albums, a.url);
    let i = first_url_index(albums, a.url);
    if i >= 0 {
        lemma_spec_save_at(albums, a, i);
        let s = albums.update(i, a);
        assert(forall|k: int| 0 <= k < s.len() ==> s[k].url == albums[k].url);
    } else {
        lemma_spec_save_absent(albums, a);
    }
}

// ---------------------------------------------------------------------------
// Lemmas about the queue.
// ---------------------------------------------------------------------------
/// Index of the first entry for the pair, or -1 if the pair is absent.
pub open spec fn first_pair_index(q: Seq<QueueEntryV>, action: Seq<char>, url: Seq<char>) -> int
    decreases q.len(),
{
    if q.len() == 0 {
        -1
    } else if q[0].action == action && q[0].url == url {
        0
    } else {
        let r = first_pair_index(q.drop_first(), action, url);
        if r < 0 {
            -1
        } else {
            1 + r
        }
    }
}

proof fn lemma_first_pair_index(q: Seq<QueueEntryV>, action: Seq<char>, url: Seq<char>)
    ensures
        first_pair_index(q, action, url) >= 0 ==> {
            let i = first_pair_index(q, action, url);
            &&& 0 <= i < q.len()
            &&& q[i].action == action && q[i].url == url
            &&& forall|j: int| 0 <= j < i ==> !(q[j].action == action && q[j].url == url)
        },
        first_pair_index(q, action, url) < 0 ==> forall|j: int|
            0 <= j < q.len() ==> !(q[j].action == action && q[j].url == url),
    decreases q.len(),
{
    if q.len() > 0 {
        assert(forall|j: int| 1 <= j < q.len() ==> q[j] == q.drop_first()[j - 1]);
        if !(q[0].action == action && q[0].url == url) {
            lemma_first_pair_index(q.drop_first(), action, url);
        }
    }
}

/// Removal of an absent pair changes nothing.
proof fn lemma_queue_remove_noop(q: Seq<QueueEntryV>, action: Seq<char>, url: Seq<char>)
    requires
        forall|j: int| 0 <= j < q.len() ==> !(q[j].action == action && q[j].url == url),
    ensures
        spec_queue_remove(q, action, url) == q,
    decreases q.len(),
{
    if q.len() > 0 {
        lemma_queue_remove_noop(q.drop_first(), action, url);
        assert(spec_queue_remove(q, action, url) =~= q);
    } else {
        assert(spec_queue_remove(q, action, url) =~= q);
    }
}

/// Under unique pairs, removing a present pair removes exactly its entry.
proof fn lemma_queue_remove_present(q: Seq<QueueEntryV>, action: Seq<char>, url: Seq<char>)
    requires
        pairs_unique(q),
        first_pair_index(q, action, url) >= 0,
    ensures
        spec_queue_remove(q, action, url) == q.remove(first_pair_index(q, action, url)),
    decreases q.len(),
{
    lemma_first_pair_index(q, action, url);
    let i = first_pair_index(q, action, url);
    if i == 0 {
        assert(forall|j: int|
            0 <= j < q.drop_first().len() ==> q.drop_first()[j] == q[j + 1]);
        assert(forall|j: int|
            0 <= j < q.drop_first().len() ==> !(q.drop_first()[j].action == action
                && q.drop_first()[j].url == url));
        lemma_queue_remove_noop(q.drop_first(), action, url);
        assert(q.remove(0) =~= q.drop_first());
    } else {
        assert(pairs_unique(q.drop_first())) by {
            assert(forall|x: int, y: int|
                0 <= x < y < q.drop_first().len() ==> q.drop_first()[x] == q[x + 1]
                    && q.drop_first()[y] == q[y + 1]);
        }
        assert(first_pair_index(q.drop_first(), action, url) == i - 1);
        lemma_queue_remove_present(q.drop_first(), action, url);
        assert(spec_queue_remove(q, action, url) =~= q.remove(i));
    }
}

/// After removal, no entry for the pair remains.
proof fn lemma_queue_remove_no_pair(q: Seq<QueueEntryV>, action: Seq<char>, url: Seq<char>)
    ensures
        forall|i: int|
            0 <= i < spec_queue_remove(q, action, url).len() ==> !(#[trigger] spec_queue_remove(
                q,
                action,
                url,
            )[i].action == action && spec_queue_remove(q, action, url)[i].url == url),
    decreases q.len(),
{
    if q.len() > 0 {
        lemma_queue_remove_no_pair(q.drop_first(), action, url);
        if !(q[0].action == action && q[0].url == url) {
            let s = seq![q[0]].add(spec_queue_remove(q.drop_first(), action, url));
            assert(forall|i: int|
                1 <= i < s.len() ==> s[i] == spec_queue_remove(q.drop_first(), action, url)[i - 1]);
        }
    }
}

/// Insertion keeps queue pairs unique.
proof fn lemma_queue_insert_preserves_unique(q: Seq<QueueEntryV>, url: Seq<char>)
    requires
        pairs_unique(q),
    ensures
        pairs_unique(spec_queue_insert(q, url)),
{
    lemma_first_pair_index(q, "url"@, url);
    let i = first_pair_index(q, "url"@, url);
    let removed = spec_queue_remove(q, "url"@, url);
    if i >= 0 {
        lemma_queue_remove_present(q, "url"@, url);
        assert(forall|k: int|
            0 <= k < removed.len() ==> removed[k] == (if k < i {
                q[k]
            } else {
                q[k + 1]
            }));
        assert(pairs_unique(removed));
    } else {
        lemma_queue_remove_noop(q, "url"@, url);
    }
    lemma_queue_remove_no_pair(q, "url"@, url);
    let s = spec_queue_insert(q, url);
    assert forall|x: int, y: int| 0 <= x < y < s.len() implies !(s[x].action == s[y].action
        && s[x].url == s[y].url) by {
        if y == s.len() - 1 {
            assert(s[y] == pending_entry("url"@, url));
            assert(s[x] == removed[x]);
            assert(!(removed[x].action == "url"@ && removed[x].url == url));
        } else {
            assert(s[x] == removed[x] && s[y] == removed[y]);
        }
    }
}

proof fn lemma_queue_get_at(q: Seq<QueueEntryV>, i: int)
    requires
        0 <= i < q.len(),
        q[i].result is None,
        forall|j: int| 0 <= j < i ==> q[j].result is Some,
    ensures
        spec_queue_get(q) == Option::Some((q[i].action, q[i].url)),
    decreases i,
{
    if i > 0 {
        lemma_queue_get_at(q.drop_first(), i - 1);
    }
}

proof fn lemma_queue_get_none(q: Seq<QueueEntryV>)
    requires
        forall|j: int| 0 <= j < q.len() ==> q[j].result is Some,
    ensures
        spec_queue_get(q) is None,
    decreases q.len(),
{
    if q.len() > 0 {
        lemma_queue_get_none(q.drop_first());
    }
}

proof fn lemma_queue_result_preserves_unique(
    q: Seq<QueueEntryV>,
    action: Seq<char>,
    url: Seq<char>,
    result: Seq<char>,
    date: Seq<char>,
)
    requires
        pairs_unique(q),
    ensures
        pairs_unique(spec_queue_result(q, action, url, result, date)),
{
    let s = spec_queue_result(q, action, url, result, date);
    assert(forall|i: int| 0 <= i < q.len() ==> s[i].action == q[i].action && s[i].url == q[i].url);
}

proof fn lemma_queue_remove_take_step(
    q: Seq<QueueEntryV>,
    action: Seq<char>,
    url: Seq<char>,
    i: int,
)
    requires
        0 <= i < q.len(),
    ensures
        spec_queue_remove(q.take(i + 1), action, url) == if q[i].action == action && q[i].url
            == url {
            spec_queue_remove(q.take(i), action, url)
        } else {
            spec_queue_remove(q.take(i), action, url).push(q[i])
        },
    decreases i,
{
    if i == 0 {
        assert(q.take(0) =~= Seq::<QueueEntryV>::empty());
        assert(q.take(1) =~= seq![q[0]]);
        assert(seq![q[0]].drop_first() =~= Seq::<QueueEntryV>::empty());
        assert(spec_queue_remove(Seq::<QueueEntryV>::empty(), action, url)
            =~= Seq::<QueueEntryV>::empty());
        if q[0].action == action && q[0].url == url {
            assert(spec_queue_remove(seq![q[0]], action, url) =~= Seq::<QueueEntryV>::empty());
        } else {
            assert(spec_queue_remove(seq![q[0]], action, url) =~= seq![q[0]]);
        }
    } else {
        lemma_queue_remove_take_step(q.drop_first(), action, url, i - 1);
        assert(q.take(i + 1).drop_first() =~= q.drop_first().take(i));
        assert(q.take(i).drop_first() =~= q.drop_first().take(i - 1));
        assert(q.take(i + 1)[0] == q[0]);
        assert(q.take(i)[0] == q[0]);
        assert(q.drop_first()[i - 1] == q[i]);
        if q[0].action == action && q[0].url == url {
        } else {
            if q[i].action == action && q[i].url == url {
            } else {
                assert(spec_queue_remove(q.take(i + 1), action, url) =~= spec_queue_remove(
                    q.take(i),
                    action,
                    url,
                ).push(q[i]));
            }
        }
    }
}

// ---------------------------------------------------------------------------
// The queue's laws.
// ---------------------------------------------------------------------------
/// After inserting a URL, the pair ("url", url) has a pending entry.
pub proof fn lemma_insert_makes_pending(q: Seq<QueueEntryV>, url: Seq<char>)
    ensures
        pending_for(spec_queue_insert(q, url), "url"@, url),
{
    let s = spec_queue_insert(q, url);
    assert(s[s.len() - 1] == pending_entry("url"@, url));
}

/// Inserting a URL into a drained queue makes `queue_get` return exactly
/// the pair ("url", url).
pub proof fn lemma_insert_then_get(q: Seq<QueueEntryV>, url: Seq<char>)
    requires
        pairs_unique(q),
        forall|i: int| 0 <= i < q.len() ==> q[i].result is Some,
    ensures
        spec_queue_get(spec_queue_insert(q, url)) == Option::Some(("url"@, url)),
{
    let removed = spec_queue_remove(q, "url"@, url);
    let s = spec_queue_insert(q, url);
    lemma_first_pair_index(q, "url"@, url);
    let i = first_pair_index(q, "url"@, url);
    if i >= 0 {
        lemma_queue_remove_present(q, "url"@, url);
        assert(forall|k: int|
            0 <= k < removed.len() ==> removed[k] == (if k < i {
                q[k]
            } else {
                q[k + 1]
            }));
    } else {
        lemma_queue_remove_noop(q, "url"@, url);
    }
    assert(forall|k: int| 0 <= k < removed.len() ==> removed[k].result is Some);
    assert(s[s.len() - 1] == pending_entry("url"@, url));
    lemma_queue_get_at(s, s.len() - 1);
}

/// The queue hands out only pending entries: whatever `queue_get` returns
/// has a pending entry for it.
pub proof fn lemma_get_returns_pending(q: Seq<QueueEntryV>)
    ensures
        spec_queue_get(q) matches Option::Some(p) ==> pending_for(q, p.0, p.1),
    decreases q.len(),
{
    if q.len() > 0 {
        if q[0].result is None {
            assert(q[0].action == q[0].action && q[0].url == q[0].url && q[0].result is None);
        } else {
            lemma_get_returns_pending(q.drop_first());
            match spec_queue_get(q) {
                Option::None => {},
                Option::Some(p) => {
                    let i = choose|i: int|
                        0 <= i < q.drop_first().len() && q.drop_first()[i].action == p.0
                            && q.drop_first()[i].url == p.1 && q.drop_first()[i].result is None;
                    assert(q[i + 1].action == p.0 && q[i + 1].url == p.1 && q[i
                        + 1].result is None);
                },
            }
        }
    }
}

/// The queue is drained exactly when nothing is pending.
pub proof fn lemma_get_none_iff_drained(q: Seq<QueueEntryV>)
    ensures
        (spec_queue_get(q) is None) <==> (forall|i: int|
            0 <= i < q.len() ==> q[i].result is Some),
    decreases q.len(),
{
    if q.len() > 0 {
        lemma_get_none_iff_drained(q.drop_first());
        if q[0].result is Some {
            assert(forall|i: int| 1 <= i < q.len() ==> q[i] == q.drop_first()[i - 1]);
        }
    }
}

/// After `queue_result` stamps a pair, that pair is no longer pending — so
/// `queue_get` never returns it again until it is re-inserted.
pub proof fn lemma_result_clears_pending(
    q: Seq<QueueEntryV>,
    action: Seq<char>,
    url: Seq<char>,
    result: Seq<char>,
    date: Seq<char>,
)
    ensures
        !pending_for(spec_queue_result(q, action, url, result, date), action, url),
{
    let s = spec_queue_result(q, action, url, result, date);
    assert forall|i: int| 0 <= i < s.len() implies !(s[i].action == action && s[i].url == url
        && s[i].result is None) by {
        if q[i].action == action && q[i].url == url {
            assert(s[i].result is Some);
        }
    }
}

/// Stamping one pair does not change whether any other pair is pending.
pub proof fn lemma_result_preserves_other_pending(
    q: Seq<QueueEntryV>,
    action: Seq<char>,
    url: Seq<char>,
    result: Seq<char>,
    date: Seq<char>,
    other_action: Seq<char>,
    other_url: Seq<char>,
)
    requires
        !(other_action == action && other_url == url),
    ensures
        pending_for(spec_queue_result(q, action, url, result, date), other_action, other_url)
            == pending_for(q, other_action, other_url),
{
    let s = spec_queue_result(q, action, url, result, date);
    if pending_for(q, other_action, other_url) {
        let i = choose|i: int|
            0 <= i < q.len() && q[i].action == other_action && q[i].url == other_url
                && q[i].result is None;
        assert(s[i].action == other_action && s[i].url == other_url && s[i].result is None);
    }
    if pending_for(s, other_action, other_url) {
        let i = choose|i: int|
            0 <= i < s.len() && s[i].action == other_action && s[i].url == other_url
                && s[i].result is None;
        assert(q[i].action == other_action && q[i].url == other_url && q[i].result is None);
    }
}

} // verus!
