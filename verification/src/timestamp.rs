//! The watermark store: for each (index name, source name) pair, the start
//! time of the last indexing pass over that source that completed.
//!
//! The store lives in memory as a list of unique keys; the caller persists
//! it as a key → timestamp table whose keys read `"<index>:<source>"` and
//! whose values are RFC 3339 timestamps. [`TimestampManager::from_entries`]
//! and [`TimestampManager::to_entries`] convert between the store and that
//! table's plain pairs; a persisted key without the separator, or a value
//! that does not parse, is a load-time parse failure.

use vstd::prelude::*;

use crate::table::{lemma_lookup_none_when_no_key, lemma_lookup_push, lemma_lookup_update,
    table_lookup};
use crate::text::str_eq;
use crate::time::{format_rfc3339_seconds, parse_rfc3339_seconds, rfc3339_seconds_of,
    rfc3339_utc_of};

verus! {

/// Which (index, source) pair a watermark stamps.
#[derive(Debug)]
pub struct TimestampKey {
    /// The index name.
    pub index: String,
    /// The source name.
    pub source: String,
}

/// The persisted form of a key: `"<index>:<source>"`.
pub open spec fn serialized_key(index: Seq<char>, source: Seq<char>) -> Seq<char> {
    index + seq![':'] + source
}

/// Splitting a persisted key at its first `:`; `None` when it has none.
pub open spec fn key_split(s: Seq<char>) -> Option<(Seq<char>, Seq<char>)>
    decreases s.len(),
{
    if s.len() == 0 {
        None
    } else if s[0] == ':' {
        Some((Seq::empty(), s.drop_first()))
    } else {
        match key_split(s.drop_first()) {
            None => None,
            Some(p) => Some((seq![s[0]] + p.0, p.1)),
        }
    }
}

/// `key_split` splits exactly at the first `:`.
proof fn lemma_key_split_at(s: Seq<char>, i: int)
    requires
        0 <= i < s.len(),
        s[i] == ':',
        forall|j: int| 0 <= j < i ==> s[j] != ':',
    ensures
        key_split(s) == Some((s.take(i), s.skip(i + 1))),
    decreases i,
{
    if i == 0 {
        assert(s.take(0) =~= Seq::<char>::empty());
        assert(s.drop_first() =~= s.skip(1));
    } else {
        lemma_key_split_at(s.drop_first(), i - 1);
        assert(seq![s[0]] + s.drop_first().take(i - 1) =~= s.take(i));
        assert(s.drop_first().skip(i) =~= s.skip(i + 1));
    }
}

/// A text without `:` does not split.
proof fn lemma_key_split_none(s: Seq<char>)
    requires
        forall|j: int| 0 <= j < s.len() ==> s[j] != ':',
    ensures
        key_split(s) is None,
    decreases s.len(),
{
    if s.len() > 0 {
        lemma_key_split_none(s.drop_first());
    }
}

impl TimestampKey {
    /// Renders the key in its persisted form.
    pub fn serialize(&self) -> (r: String)
        ensures
            r@ == serialized_key(self.index@, self.source@),
    {
        proof {
            reveal_strlit(":");
        }
        let mut r = self.index.clone();
        r.append(":");
        r.append(self.source.as_str());
        proof {
            assert(r@ =~= serialized_key(self.index@, self.source@));
        }
        r
    }

    /// Reads a key back from its persisted form: the part before the first
    /// `:` names the index, the rest the source. `None` when the separator
    /// is missing.
    pub fn deserialize(s: &str) -> (r: Option<TimestampKey>)
        ensures
            match r {
                Some(k) => key_split(s@) == Some((k.index@, k.source@)),
                None => key_split(s@) is None,
            },
    {
        let n = s.unicode_len();
        let mut i: usize = 0;
        while i < n && s.get_char(i) != ':'
            invariant
                i <= n,
                n == s@.len(),
                forall|j: int| 0 <= j < i ==> s@[j] != ':',
            decreases n - i,
        {
            i += 1;
        }
        if i == n {
            proof {
                lemma_key_split_none(s@);
            }
            return None;
        }
        proof {
            lemma_key_split_at(s@, i as int);
            assert(s@.take(i as int) =~= s@.subrange(0, i as int));
            assert(s@.skip(i as int + 1) =~= s@.subrange(i as int + 1, n as int));
        }
        Some(
            TimestampKey {
                index: String::from_str(s.substring_char(0, i)),
                source: String::from_str(s.substring_char(i + 1, n)),
            },
        )
    }
}

/// Serializing a key whose index name holds no `:` and splitting the text
/// again yields the key back: the persisted form loses nothing (the source
/// name may hold `:` freely; the index name may not).
pub proof fn lemma_key_round_trip(index: Seq<char>, source: Seq<char>)
    requires
        forall|j: int| 0 <= j < index.len() ==> index[j] != ':',
    ensures
        key_split(serialized_key(index, source)) == Some((index, source)),
{
    let s = serialized_key(index, source);
    assert(s[index.len() as int] == ':');
    lemma_key_split_at(s, index.len() as int);
    assert(s.take(index.len() as int) =~= index);
    assert(s.skip(index.len() as int + 1) =~= source);
}

/// Why a persisted watermark table could not be read back.
#[derive(Debug)]
pub enum TimestampParseError {
    /// A persisted key without the `<index>:<source>` separator.
    MalformedKey { key: String },
    /// A persisted value that is not an RFC 3339 timestamp.
    MalformedTimestamp { value: String },
}

/// What one persisted (key, value) pair denotes, when both parts parse.
pub open spec fn parsed_entry(k: Seq<char>, v: Seq<char>) -> Option<((Seq<char>, Seq<char>), i64)> {
    match key_split(k) {
        None => None,
        Some(key) => match rfc3339_seconds_of(v) {
            None => None,
            Some(t) => Some((key, t)),
        },
    }
}

/// The persisted image of the store: one pair per entry whose timestamp the
/// text format can represent, in store order.
pub open spec fn serialized_entries(s: Seq<((Seq<char>, Seq<char>), i64)>) -> Seq<
    (Seq<char>, Seq<char>),
>
    decreases s.len(),
{
    if s.len() == 0 {
        Seq::empty()
    } else {
        let rest = serialized_entries(s.drop_last());
        match rfc3339_utc_of(s.last().1) {
            Some(v) => rest.push((serialized_key(s.last().0.0, s.last().0.1), v)),
            None => rest,
        }
    }
}

/// The watermark store.
#[derive(Debug)]
pub struct TimestampManager {
    timestamps: Vec<(TimestampKey, i64)>,
}

impl TimestampManager {
    /// The entries as ((index, source), seconds) triples, oldest first.
    pub closed spec fn entries_model(self) -> Seq<((Seq<char>, Seq<char>), i64)> {
        self.timestamps@.map_values(|p: (TimestampKey, i64)| ((p.0.index@, p.0.source@), p.1))
    }

    /// The watermark stored for (index, source), if any.
    pub open spec fn spec_timestamp(self, index: Seq<char>, source: Seq<char>) -> Option<i64> {
        table_lookup(self.entries_model(), (index, source))
    }

    /// An empty store: what a first run starts from when nothing was
    /// persisted yet.
    pub fn new() -> (r: TimestampManager)
        ensures
            r.entries_model() =~= Seq::<((Seq<char>, Seq<char>), i64)>::empty(),
    {
        TimestampManager { timestamps: Vec::new() }
    }

    /// Reads a store back from persisted pairs. Fails — reporting the first
    /// offending text — exactly when some key lacks its separator or some
    /// value is not a timestamp.
    pub fn from_entries(entries: &Vec<(String, String)>) -> (r: Result<
        TimestampManager,
        TimestampParseError,
    >)
        ensures
            r is Ok <==> (forall|i: int|
                0 <= i < entries@.len() ==> (#[trigger] parsed_entry(
                    entries@[i].0@,
                    entries@[i].1@,
                )) is Some),
            r matches Ok(m) ==> {
                &&& m.entries_model().len() == entries@.len()
                &&& forall|i: int|
                    0 <= i < entries@.len() ==> Some(#[trigger] m.entries_model()[i])
                        == parsed_entry(entries@[i].0@, entries@[i].1@)
            },
            r matches Err(e) ==> match e {
                TimestampParseError::MalformedKey { key } => exists|i: int|
                    0 <= i < entries@.len() && #[trigger] entries@[i].0@ == key@ && key_split(key@)
                        is None,
                TimestampParseError::MalformedTimestamp { value } => exists|i: int|
                    0 <= i < entries@.len() && #[trigger] entries@[i].1@ == value@
                        && rfc3339_seconds_of(value@) is None,
            },
    {
        let n = entries.len();
        let mut out: Vec<(TimestampKey, i64)> = Vec::new();
        let mut i: usize = 0;
        while i < n
            invariant
                i <= n,
                n == entries@.len(),
                out@.len() == i,
                forall|j: int|
                    0 <= j < i ==> Some(
                        (
                            ((#[trigger] out@[j]).0.index@, out@[j].0.source@),
                            out@[j].1,
                        ),
                    ) == parsed_entry(entries@[j].0@, entries@[j].1@),
            decreases n - i,
        {
            let key = match TimestampKey::deserialize(entries[i].0.as_str()) {
                None => {
                    proof {
                        assert(parsed_entry(entries@[i as int].0@, entries@[i as int].1@)
                            is None);
                    }
                    return Err(TimestampParseError::MalformedKey { key: entries[i].0.clone() });
                },
                Some(k) => k,
            };
            let t = match parse_rfc3339_seconds(entries[i].1.as_str()) {
                None => {
                    proof {
                        assert(parsed_entry(entries@[i as int].0@, entries@[i as int].1@)
                            is None);
                    }
                    return Err(
                        TimestampParseError::MalformedTimestamp { value: entries[i].1.clone() },
                    );
                },
                Some(t) => t,
            };
            out.push((key, t));
            i += 1;
        }
        let m = TimestampManager { timestamps: out };
        proof {
            assert(forall|j: int|
                0 <= j < n ==> Some(#[trigger] m.entries_model()[j]) == parsed_entry(
                    entries@[j].0@,
                    entries@[j].1@,
                ));
            assert forall|j: int| 0 <= j < n implies (#[trigger] parsed_entry(
                entries@[j].0@,
                entries@[j].1@,
            )) is Some by {
                assert(Some(m.entries_model()[j]) == parsed_entry(entries@[j].0@, entries@[j].1@));
            }
        }
        Ok(m)
    }

    /// Renders the store as persisted pairs: every entry whose timestamp the
    /// text format can represent, in store order.
    pub fn to_entries(&self) -> (r: Vec<(String, String)>)
        ensures
            r@.map_values(|p: (String, String)| (p.0@, p.1@)) =~= serialized_entries(
                self.entries_model(),
            ),
    {
        let n = self.timestamps.len();
        let mut out: Vec<(String, String)> = Vec::new();
        let mut i: usize = 0;
        proof {
            assert(self.entries_model().take(0) =~= Seq::<((Seq<char>, Seq<char>), i64)>::empty());
        }
        while i < n
            invariant
                i <= n,
                n == self.entries_model().len(),
                n == self.timestamps@.len(),
                out@.map_values(|p: (String, String)| (p.0@, p.1@)) =~= serialized_entries(
                    self.entries_model().take(i as int),
                ),
            decreases n - i,
        {
            let key = self.timestamps[i].0.serialize();
            match format_rfc3339_seconds(self.timestamps[i].1) {
                Some(v) => {
                    out.push((key, v));
                },
                None => {},
            }
            proof {
                assert(self.entries_model().take(i as int + 1).drop_last() =~= self.entries_model()
                    .take(i as int));
                assert(self.entries_model().take(i as int + 1).last() == self.entries_model()[
                    i as int
                ]);
            }
            i += 1;
        }
        proof {
            assert(self.entries_model().take(n as int) =~= self.entries_model());
        }
        out
    }

    /// The watermark stored for (index, source), if any.
    pub fn get_timestamp(&self, index: &str, source: &str) -> (r: Option<i64>)
        ensures
            r == self.spec_timestamp(index@, source@),
    {
        let n = self.timestamps.len();
        let mut i: usize = 0;
        proof {
            assert(self.entries_model().skip(0) =~= self.entries_model());
        }
        while i < n
            invariant
                i <= n,
                n == self.timestamps@.len(),
                table_lookup(self.entries_model(), (index@, source@)) == table_lookup(
                    self.entries_model().skip(i as int),
                    (index@, source@),
                ),
            decreases n - i,
        {
            let hit = str_eq(self.timestamps[i].0.index.as_str(), index) && str_eq(
                self.timestamps[i].0.source.as_str(),
                source,
            );
            if hit {
                proof {
                    assert(self.entries_model().skip(i as int)[0] == self.entries_model()[i as int]);
                }
                return Some(self.timestamps[i].1);
            }
            proof {
                assert(self.entries_model().skip(i as int)[0] == self.entries_model()[i as int]);
                assert(self.entries_model().skip(i as int).drop_first() =~= self.entries_model()
                    .skip(i as int + 1));
            }
            i += 1;
        }
        proof {
            assert(self.entries_model().skip(n as int) =~= Seq::<
                ((Seq<char>, Seq<char>), i64),
            >::empty());
        }
        None
    }

    /// Stamps (index, source) with `t`, replacing any previous watermark of
    /// the pair and leaving every other pair's as it was.
    pub fn update(&mut self, index: String, source: String, t: i64)
        ensures
            final(self).spec_timestamp(index@, source@) == Some(t),
            forall|i2: Seq<char>, s2: Seq<char>|
                !(i2 == index@ && s2 == source@) ==> #[trigger] final(self).spec_timestamp(i2, s2)
                    == old(self).spec_timestamp(i2, s2),
    {
        let n = self.timestamps.len();
        let mut i: usize = 0;
        while i < n
            invariant
                i <= n,
                n == self.timestamps@.len(),
                forall|j: int|
                    0 <= j < i ==> (#[trigger] self.entries_model()[j]).0 != (index@, source@),
                self == old(self),
            decreases n - i,
        {
            let hit = str_eq(self.timestamps[i].0.index.as_str(), index.as_str()) && str_eq(
                self.timestamps[i].0.source.as_str(),
                source.as_str(),
            );
            if hit {
                proof {
                    assert((self.entries_model()[i as int]).0 == (index@, source@));
                    assert forall|i2: Seq<char>, s2: Seq<char>|
                        !(i2 == index@ && s2 == source@) implies table_lookup(
                        self.entries_model().update(i as int, ((index@, source@), t)),
                        (i2, s2),
                    ) == table_lookup(self.entries_model(), (i2, s2)) by {
                        lemma_lookup_update(
                            self.entries_model(),
                            i as int,
                            ((index@, source@), t),
                            (i2, s2),
                        );
                    }
                    lemma_lookup_update(
                        self.entries_model(),
                        i as int,
                        ((index@, source@), t),
                        (index@, source@),
                    );
                }
                self.timestamps.set(i, (TimestampKey { index, source }, t));
                proof {
                    assert(self.entries_model() =~= old(self).entries_model().update(
                        i as int,
                        ((index@, source@), t),
                    ));
                }
                return ;
            }
            i += 1;
        }
        proof {
            lemma_lookup_none_when_no_key(self.entries_model(), (index@, source@));
            lemma_lookup_push(self.entries_model(), ((index@, source@), t), (index@, source@));
            assert forall|i2: Seq<char>, s2: Seq<char>|
                !(i2 == index@ && s2 == source@) implies table_lookup(
                self.entries_model().push(((index@, source@), t)),
                (i2, s2),
            ) == table_lookup(self.entries_model(), (i2, s2)) by {
                lemma_lookup_push(self.entries_model(), ((index@, source@), t), (i2, s2));
            }
        }
        self.timestamps.push((TimestampKey { index, source }, t));
        proof {
            assert(self.entries_model() =~= old(self).entries_model().push(
                ((index@, source@), t),
            ));
        }
    }
}

} // verus!
