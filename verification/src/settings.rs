//! The application settings: a store of JSON values by name.
//!
//! Where the settings file lives, and when it is read and written, is up to the
//! application; the store is the library's.
use vstd::prelude::*;
use crate::json::{JsonValue, JsonView};
use crate::text::{chars_of, string_of};
use crate::xml_events::same_text;

verus! {

/// The settings, one value per name.
pub struct Settings {
    entries: Vec<(String, JsonValue)>,
}

pub open spec fn keys_distinct(s: Seq<(String, JsonValue)>) -> bool {
    forall|i: int, j: int| 0 <= i < j < s.len() ==> (#[trigger] s[i]).0@ != (#[trigger] s[j]).0@
}

/// The map that a list of (name, value) pairs gives, a later pair winning.
pub open spec fn entries_map(s: Seq<(String, JsonValue)>) -> Map<Seq<char>, JsonView>
    decreases s.len(),
{
    if s.len() == 0 {
        Map::empty()
    } else {
        entries_map(s.drop_last()).insert(s.last().0@, s.last().1@)
    }
}

impl View for Settings {
    type V = Map<Seq<char>, JsonView>;

    closed spec fn view(&self) -> Map<Seq<char>, JsonView> {
        entries_map(self.entries@)
    }
}

proof fn lemma_map_has(s: Seq<(String, JsonValue)>, i: int)
    requires
        keys_distinct(s),
        0 <= i < s.len(),
    ensures
        entries_map(s).contains_key(s[i].0@),
        entries_map(s)[s[i].0@] == s[i].1@,
    decreases s.len(),
{
    if i < s.len() - 1 {
        lemma_map_has(s.drop_last(), i);
        assert(s[i].0@ != s[s.len() - 1].0@);
    }
}

proof fn lemma_map_lacks(s: Seq<(String, JsonValue)>, k: Seq<char>)
    requires
        forall|i: int| 0 <= i < s.len() ==> (#[trigger] s[i]).0@ != k,
    ensures
        !entries_map(s).contains_key(k),
    decreases s.len(),
{
    if s.len() > 0 {
        lemma_map_lacks(s.drop_last(), k);
    }
}

proof fn lemma_map_update(s: Seq<(String, JsonValue)>, i: int, e: (String, JsonValue))
    requires
        keys_distinct(s),
        0 <= i < s.len(),
        e.0@ == s[i].0@,
    ensures
        entries_map(s.update(i, e)) =~= entries_map(s).insert(e.0@, e.1@),
    decreases s.len(),
{
    let t = s.update(i, e);
    if i == s.len() - 1 {
        assert(t.drop_last() =~= s.drop_last());
        lemma_map_has(s, i);
    } else {
        assert(t.drop_last() =~= s.drop_last().update(i, e));
        lemma_map_update(s.drop_last(), i, e);
        assert(s[i].0@ != s[s.len() - 1].0@);
    }
}

impl Settings {
    #[verifier::type_invariant]
    spec fn wf(self) -> bool {
        keys_distinct(self.entries@)
    }

    /// No settings.
    pub fn new() -> (r: Settings)
        ensures
            r@ == Map::<Seq<char>, JsonView>::empty(),
    {
        let r = Settings { entries: Vec::new() };
        proof {
            reveal_view(&r);
        }
        r
    }

    /// Where `key` stands in the list, if it does.
    fn position(&self, key: &str) -> (r: Option<usize>)
        ensures
            r matches Some(i) ==> i < self.entries@.len() && self.entries@[i as int].0@ == key@,
            r is None ==> forall|i: int| 0 <= i < self.entries@.len() ==> (#[trigger] self.entries@[i]).0@ != key@,
    {
        let mut i: usize = 0;
        while i < self.entries.len()
            invariant
                i <= self.entries@.len(),
                forall|j: int| 0 <= j < i ==> (#[trigger] self.entries@[j]).0@ != key@,
            decreases self.entries@.len() - i,
        {
            if same_text(self.entries[i].0.as_str(), key) {
                return Some(i);
            }
            i = i + 1;
        }
        None
    }

    /// The value stored under `key`.
    fn find(&self, key: &str) -> (r: Option<&JsonValue>)
        ensures
            r matches Some(v) ==> self@.get(key@) == Some(v@),
            r is None ==> self@.get(key@) is None,
    {
        proof {
            use_type_invariant(self);
            reveal_view(self);
        }
        match self.position(key) {
            Some(i) => {
                proof {
                    lemma_map_has(self.entries@, i as int);
                }
                Some(&self.entries[i].1)
            },
            None => {
                proof {
                    lemma_map_lacks(self.entries@, key@);
                }
                None
            },
        }
    }

    /// Stores `value` under `key`, in place of any value stored there.
    fn insert(&mut self, key: &str, value: JsonValue)
        ensures
            final(self)@ == old(self)@.insert(key@, value@),
    {
        proof {
            use_type_invariant(&*self);
            reveal_view(&*self);
        }
        let k = string_of(chars_of(key).as_slice());
        let ghost old_entries = self.entries@;
        match self.position(key) {
            Some(i) => {
                let ghost e = (k, value);
                proof {
                    lemma_map_update(old_entries, i as int, e);
                }
                let mut entries: Vec<(String, JsonValue)> = Vec::new();
                std::mem::swap(&mut entries, &mut self.entries);
                entries.set(i, (k, value));
                assert(entries@ =~= old_entries.update(i as int, e));
                std::mem::swap(&mut entries, &mut self.entries);
            },
            None => {
                let ghost e = (k, value);
                let mut entries: Vec<(String, JsonValue)> = Vec::new();
                std::mem::swap(&mut entries, &mut self.entries);
                entries.push((k, value));
                assert(entries@.drop_last() =~= old_entries);
                std::mem::swap(&mut entries, &mut self.entries);
            },
        }
        proof {
            reveal_view(&*self);
        }
    }

    /// Removes every setting.
    fn remove_all(&mut self)
        ensures
            final(self)@ == Map::<Seq<char>, JsonView>::empty(),
    {
        self.entries = Vec::new();
        proof {
            reveal_view(&*self);
        }
    }
}

/// Every setting, as (name, value) pairs in no particular order.
pub fn get_all(settings: &Settings) -> (r: Vec<(String, JsonValue)>)
    ensures
        keys_distinct(r@),
        entries_map(r@) == settings@,
{
    proof {
        use_type_invariant(settings);
        reveal_view(settings);
    }
    let mut r: Vec<(String, JsonValue)> = Vec::new();
    let mut i: usize = 0;
    while i < settings.entries.len()
        invariant
            i <= settings.entries@.len(),
            r@.len() == i,
            keys_distinct(settings.entries@),
            forall|j: int| 0 <= j < i ==> (#[trigger] r@[j]).0@ == settings.entries@[j].0@ && r@[j].1@ == settings.entries@[j].1@,
        decreases settings.entries@.len() - i,
    {
        let k = settings.entries[i].0.clone();
        let v = settings.entries[i].1.duplicate();
        r.push((k, v));
        i = i + 1;
    }
    proof {
        lemma_same_map(r@, settings.entries@, r@.len() as int);
        assert(r@.take(r@.len() as int) =~= r@);
        assert(settings.entries@.take(r@.len() as int) =~= settings.entries@);
    }
    r
}

proof fn lemma_same_map(a: Seq<(String, JsonValue)>, b: Seq<(String, JsonValue)>, n: int)
    requires
        0 <= n <= a.len() == b.len(),
        forall|j: int| 0 <= j < a.len() ==> (#[trigger] a[j]).0@ == b[j].0@ && a[j].1@ == b[j].1@,
    ensures
        entries_map(a.take(n)) == entries_map(b.take(n)),
        keys_distinct(b) ==> keys_distinct(a),
    decreases n,
{
    if n > 0 {
        lemma_same_map(a, b, n - 1);
        assert(a.take(n).drop_last() =~= a.take(n - 1));
        assert(b.take(n).drop_last() =~= b.take(n - 1));
    }
}

/// The value stored under `key`, or `default`.
pub fn get(settings: &Settings, key: &str, default: JsonValue) -> (r: JsonValue)
    ensures
        r@ == match settings@.get(key@) {
            Some(v) => v,
            None => default@,
        },
{
    match settings.find(key) {
        Some(v) => v.duplicate(),
        None => default,
    }
}

/// The value stored under `key`, if any.
pub fn try_get(settings: &Settings, key: &str) -> (r: Option<JsonValue>)
    ensures
        r matches Some(v) ==> settings@.get(key@) == Some(v@),
        r is None ==> settings@.get(key@) is None,
{
    match settings.find(key) {
        Some(v) => Some(v.duplicate()),
        None => None,
    }
}

/// Stores `value` under `key`, in place of any value stored there.
pub fn set(settings: &mut Settings, key: &str, value: JsonValue)
    ensures
        final(settings)@ == old(settings)@.insert(key@, value@),
{
    settings.insert(key, value);
}

/// Whether a value is stored under `key`.
pub fn contains(settings: &Settings, key: &str) -> (r: bool)
    ensures
        r == settings@.contains_key(key@),
{
    settings.find(key).is_some()
}

/// Removes every setting.
pub fn clear(settings: &mut Settings)
    ensures
        final(settings)@ == Map::<Seq<char>, JsonView>::empty(),
{
    settings.remove_all();
}

/// What `get_u64` gives: the number stored under `key` where it is a non-negative
/// integer, else `default`.
pub open spec fn spec_get_u64(m: Map<Seq<char>, JsonView>, key: Seq<char>, default: u64) -> u64 {
    match m.get(key) {
        Some(v) => match v.as_u64() {
            Some(u) => u,
            None => default,
        },
        None => default,
    }
}

/// What `get_bool` gives: the boolean stored under `key`, else `default`.
pub open spec fn spec_get_bool(m: Map<Seq<char>, JsonView>, key: Seq<char>, default: bool) -> bool {
    match m.get(key) {
        Some(v) => match v.as_bool() {
            Some(b) => b,
            None => default,
        },
        None => default,
    }
}

/// What `get_str` gives: the string stored under `key`, else `default`.
pub open spec fn spec_get_str(m: Map<Seq<char>, JsonView>, key: Seq<char>, default: Seq<char>) -> Seq<char> {
    match m.get(key) {
        Some(v) => match v.as_text() {
            Some(t) => t,
            None => default,
        },
        None => default,
    }
}

pub fn get_u64(settings: &Settings, key: &str, default: u64) -> (r: u64)
    ensures
        r == spec_get_u64(settings@, key@, default),
{
    match settings.find(key) {
        Some(v) => match v.as_u64() {
            Some(u) => u,
            None => default,
        },
        None => default,
    }
}

pub fn get_bool(settings: &Settings, key: &str, default: bool) -> (r: bool)
    ensures
        r == spec_get_bool(settings@, key@, default),
{
    match settings.find(key) {
        Some(v) => match v.as_bool() {
            Some(b) => b,
            None => default,
        },
        None => default,
    }
}

pub fn get_str(settings: &Settings, key: &str, default: &str) -> (r: String)
    ensures
        r@ == spec_get_str(settings@, key@, default@),
{
    match settings.find(key) {
        Some(v) => match v.as_str() {
            Some(t) => string_of(chars_of(t).as_slice()),
            None => string_of(chars_of(default).as_slice()),
        },
        None => string_of(chars_of(default).as_slice()),
    }
}

/// A value stored under a name is what a read of that name gives back, and
/// storing it leaves every other name as it was.
pub proof fn law_read_after_write(m: Map<Seq<char>, JsonView>, key: Seq<char>, value: JsonView, other: Seq<char>)
    requires
        other != key,
    ensures
        m.insert(key, value).get(key) == Some(value),
        m.insert(key, value).contains_key(key),
        m.insert(key, value).get(other) == m.get(other),
{
}

/// A number, a boolean or a string stored under a name is what the typed read of
/// that name gives back, whatever the default.
pub proof fn law_typed_read_after_write(m: Map<Seq<char>, JsonView>, key: Seq<char>, u: u64, b: bool, t: Seq<char>, du: u64, db: bool, dt: Seq<char>)
    ensures
        spec_get_u64(m.insert(key, JsonView::Number(crate::json::JsonNumber::PosInt(u))), key, du) == u,
        spec_get_bool(m.insert(key, JsonView::Bool(b)), key, db) == b,
        spec_get_str(m.insert(key, JsonView::Text(t)), key, dt) == t,
{
}

/// After the settings are cleared no name is found, and every read gives its default.
pub proof fn law_cleared_reads_default(key: Seq<char>, du: u64, db: bool, dt: Seq<char>)
    ensures
        !Map::<Seq<char>, JsonView>::empty().contains_key(key),
        spec_get_u64(Map::empty(), key, du) == du,
        spec_get_bool(Map::empty(), key, db) == db,
        spec_get_str(Map::empty(), key, dt) == dt,
{
}

/// Storing the same value under a name twice is the same as storing it once.
pub proof fn law_write_idempotent(m: Map<Seq<char>, JsonView>, key: Seq<char>, value: JsonView)
    ensures
        m.insert(key, value).insert(key, value) =~= m.insert(key, value),
{
}

/// `view` of a settings store, for the proofs of this module.
proof fn reveal_view(s: &Settings)
    ensures
        s@ == entries_map(s.entries@),
{
}

} // verus!
