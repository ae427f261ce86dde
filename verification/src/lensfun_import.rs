//! The decisions made when lens profiles are made from the bundled Lensfun
//! database: which lens a maker query takes, which lenses fit a body's mount, when a
//! search query is selective enough to run, and which synthesised profiles are kept.
use vstd::prelude::*;
use crate::text::{trim, chars_of, trim_chars, eq_ignore_ascii_case, same_ascii_case_blind};
use crate::xml_events::same_text;

verus! {

/// Upper bound on the number of profiles a single query may synthesise.
pub const MAX_PROFILES_PER_QUERY: usize = 600;

/// A query is selective enough when, trimmed, it has at least three characters.
pub open spec fn selective(query: Seq<char>) -> bool {
    trim(query).len() >= 3
}

/// Whether a search query is selective enough to sweep the database with.
pub fn query_is_selective(query: &str) -> (r: bool)
    ensures
        r == selective(query@),
{
    let t = trim_chars(chars_of(query).as_slice());
    t.len() >= 3
}

/// Whether one of a lens's mounts is the body's mount (exactly).
pub fn lens_fits_mount(lens_mounts: &Vec<String>, camera_mount: &str) -> (r: bool)
    ensures
        r == exists|i: int| 0 <= i < lens_mounts@.len() && (#[trigger] lens_mounts@[i])@ == camera_mount@,
{
    let mut i: usize = 0;
    while i < lens_mounts.len()
        invariant
            i <= lens_mounts@.len(),
            forall|j: int| 0 <= j < i ==> (#[trigger] lens_mounts@[j])@ != camera_mount@,
        decreases lens_mounts@.len() - i,
    {
        if same_text(lens_mounts[i].as_str(), camera_mount) {
            return true;
        }
        i = i + 1;
    }
    false
}

/// Which of the lenses a fuzzy search found (given by their makers, best first) a
/// query takes: with no maker, the best hit; with a maker, the first hit of that
/// maker up to ASCII case, and none if there is no such hit.
pub open spec fn picked(makers: Seq<Seq<char>>, maker: Seq<char>, r: Option<usize>) -> bool {
    if maker.len() == 0 {
        r == (if makers.len() > 0 { Some(0usize) } else { None::<usize> })
    } else {
        match r {
            Some(i) => i < makers.len() && same_ascii_case_blind(makers[i as int], maker)
                && forall|j: int| 0 <= j < i ==> !same_ascii_case_blind(#[trigger] makers[j], maker),
            None => forall|j: int| 0 <= j < makers.len() ==> !same_ascii_case_blind(#[trigger] makers[j], maker),
        }
    }
}

pub open spec fn makers_view(makers: Seq<String>) -> Seq<Seq<char>> {
    makers.map_values(|m: String| m@)
}

/// The lens a query takes among the hits of a fuzzy search (see `picked`).
pub fn pick_lens(makers: &Vec<String>, maker: &str) -> (r: Option<usize>)
    ensures
        picked(makers_view(makers@), maker@, r),
{
    if maker.is_empty() {
        return if makers.len() > 0 { Some(0) } else { None };
    }
    let mut i: usize = 0;
    while i < makers.len()
        invariant
            i <= makers@.len(),
            maker@.len() > 0,
            forall|j: int| 0 <= j < i ==> !same_ascii_case_blind(#[trigger] makers_view(makers@)[j], maker@),
        decreases makers@.len() - i,
    {
        if eq_ignore_ascii_case(makers[i].as_str(), maker) {
            return Some(i);
        }
        i = i + 1;
    }
    None
}

/// The identifiers of the profiles a query has kept so far: each once, at most
/// `MAX_PROFILES_PER_QUERY` of them, in the order they were found.
pub struct ProfileSet {
    identifiers: Vec<String>,
}

pub open spec fn distinct_texts(s: Seq<Seq<char>>) -> bool {
    forall|i: int, j: int| 0 <= i < j < s.len() ==> s[i] != s[j]
}

impl View for ProfileSet {
    type V = Seq<Seq<char>>;

    closed spec fn view(&self) -> Seq<Seq<char>> {
        makers_view(self.identifiers@)
    }
}

impl ProfileSet {
    #[verifier::type_invariant]
    spec fn wf(self) -> bool {
        &&& distinct_texts(makers_view(self.identifiers@))
        &&& self.identifiers@.len() <= MAX_PROFILES_PER_QUERY
    }

    /// No profile kept.
    pub fn new() -> (r: ProfileSet)
        ensures
            r@ == Seq::<Seq<char>>::empty(),
    {
        let r = ProfileSet { identifiers: Vec::new() };
        assert(makers_view(r.identifiers@) =~= Seq::<Seq<char>>::empty());
        r
    }

    /// The number of profiles kept.
    pub fn len(&self) -> (r: usize)
        ensures
            r == self@.len(),
    {
        self.identifiers.len()
    }

    /// Whether the query has kept as many profiles as it may.
    pub fn is_full(&self) -> (r: bool)
        ensures
            r == (self@.len() >= MAX_PROFILES_PER_QUERY),
    {
        self.identifiers.len() >= MAX_PROFILES_PER_QUERY
    }

    /// Whether a profile with this identifier has been kept.
    pub fn contains(&self, id: &str) -> (r: bool)
        ensures
            r == self@.contains(id@),
    {
        let mut i: usize = 0;
        while i < self.identifiers.len()
            invariant
                i <= self.identifiers@.len(),
                forall|j: int| 0 <= j < i ==> (#[trigger] makers_view(self.identifiers@)[j]) != id@,
            decreases self.identifiers@.len() - i,
        {
            if same_text(self.identifiers[i].as_str(), id) {
                assert(self@[i as int] == id@);
                return true;
            }
            i = i + 1;
        }
        false
    }

    /// Keeps a profile with identifier `id`, unless the query is full or a profile
    /// with that identifier was kept already; says whether it was kept.
    pub fn insert(&mut self, id: String) -> (r: bool)
        ensures
            r == (old(self)@.len() < MAX_PROFILES_PER_QUERY && !old(self)@.contains(id@)),
            r ==> final(self)@ == old(self)@.push(id@),
            !r ==> final(self)@ == old(self)@,
            final(self)@.len() <= MAX_PROFILES_PER_QUERY,
            distinct_texts(final(self)@),
    {
        proof {
            use_type_invariant(&*self);
        }
        if self.is_full() || self.contains(id.as_str()) {
            return false;
        }
        assert(self@.len() < MAX_PROFILES_PER_QUERY);
        let ghost before = self@;
        let mut ids: Vec<String> = Vec::new();
        std::mem::swap(&mut ids, &mut self.identifiers);
        let ghost idv = id@;
        ids.push(id);
        assert(makers_view(ids@) =~= before.push(idv));
        assert(distinct_texts(makers_view(ids@))) by {
            assert forall|i: int, j: int| 0 <= i < j < makers_view(ids@).len() implies makers_view(ids@)[i] != makers_view(ids@)[j] by {
                if j == before.len() {
                    assert(makers_view(ids@)[i] == before[i]);
                }
            }
        }
        std::mem::swap(&mut ids, &mut self.identifiers);
        true
    }

    /// The identifiers kept, in the order they were found: each once, and at most
    /// `MAX_PROFILES_PER_QUERY` of them.
    pub fn identifiers(&self) -> (r: &Vec<String>)
        ensures
            makers_view(r@) == self@,
            self@.len() <= MAX_PROFILES_PER_QUERY,
            distinct_texts(self@),
    {
        proof {
            use_type_invariant(self);
        }
        &self.identifiers
    }
}

} // verus!
