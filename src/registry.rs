//! The subscription registry of one connection: exact topics, and prefixes
//! registered with a leading wildcard.
use vstd::prelude::*;

verus! {

/// The marker that makes a subscription a prefix match.
pub const WILDCARD: char = '*';

/// The registry as sets: exact topics, and prefixes (without the marker).
pub type Interest = (Set<Seq<char>>, Set<Seq<char>>);

/// A subscription string names a prefix.
pub open spec fn is_wildcard(t: Seq<char>) -> bool {
    t.len() > 0 && t[0] == WILDCARD
}

/// The registry after subscribing to `t`.
pub open spec fn listen_spec(v: Interest, t: Seq<char>) -> Interest {
    if is_wildcard(t) {
        (v.0, v.1.insert(t.drop_first()))
    } else {
        (v.0.insert(t), v.1)
    }
}

/// The registry after unsubscribing from `t`.
pub open spec fn unlisten_spec(v: Interest, t: Seq<char>) -> Interest {
    if is_wildcard(t) {
        (v.0, v.1.remove(t.drop_first()))
    } else {
        (v.0.remove(t), v.1)
    }
}

/// A topic is of interest: it is one of the exact topics, or starts with one
/// of the prefixes.
pub open spec fn listening_spec(v: Interest, topic: Seq<char>) -> bool {
    v.0.contains(topic) || exists|p: Seq<char>| v.1.contains(p) && p.is_prefix_of(topic)
}

/// The characters of each string.
pub open spec fn strs(v: Seq<String>) -> Seq<Seq<char>> {
    v.map_values(|s: String| s@)
}

/// Relies on `str::strip_prefix` with a `char` pattern: the rest of `s` when
/// it starts with `c`.
#[verifier::external_body]
fn strip_char_prefix(s: &str, c: char) -> (r: Option<&str>)
    ensures
        r is Some <==> (s@.len() > 0 && s@[0] == c),
        r matches Some(rest) ==> rest@ == s@.drop_first(),
{
    s.strip_prefix(c)
}

/// Relies on `str::starts_with` with a `&str` pattern: `p` is a prefix of `s`.
#[verifier::external_body]
fn str_starts_with(s: &str, p: &str) -> (r: bool)
    ensures
        r == p@.is_prefix_of(s@),
{
    s.starts_with(p)
}

/// Where `s` stands in `v`, if it does.
fn position(v: &Vec<String>, s: &String) -> (r: Option<usize>)
    ensures
        r matches Some(i) ==> i < v@.len() && v@[i as int]@ == s@,
        r is None ==> !strs(v@).contains(s@),
{
    let mut i: usize = 0;
    while i < v.len()
        invariant
            i <= v@.len(),
            forall|j: int| 0 <= j < i ==> v@[j]@ != s@,
        decreases v@.len() - i,
    {
        if v[i] == *s {
            return Some(i);
        }
        i += 1;
    }
    proof {
        assert forall|j: int| 0 <= j < strs(v@).len() implies strs(v@)[j] != s@ by {}
    }
    None
}

/// Adds `s` to a list that holds each string once.
fn insert_unique(v: &mut Vec<String>, s: String)
    requires
        strs(old(v)@).no_duplicates(),
    ensures
        strs(final(v)@).no_duplicates(),
        strs(final(v)@).to_set() == strs(old(v)@).to_set().insert(s@),
{
    match position(v, &s) {
        Some(i) => {
            assert(strs(v@)[i as int] == s@);
            assert(strs(v@).to_set() =~= strs(v@).to_set().insert(s@));
        },
        None => {
            let ghost before = strs(v@);
            v.push(s);
            assert(strs(v@) =~= before.push(s@));
            assert(strs(v@).to_set() =~= before.to_set().insert(s@)) by {
                assert(strs(v@)[before.len() as int] == s@);
                assert forall|t: Seq<char>| before.contains(t) implies strs(v@).contains(t) by {
                    let j = choose|j: int| 0 <= j < before.len() && before[j] == t;
                    assert(strs(v@)[j] == t);
                }
            }
        },
    }
}

/// Removes `s` from a list that holds each string once.
fn remove_unique(v: &mut Vec<String>, s: &String)
    requires
        strs(old(v)@).no_duplicates(),
    ensures
        strs(final(v)@).no_duplicates(),
        strs(final(v)@).to_set() == strs(old(v)@).to_set().remove(s@),
{
    match position(v, s) {
        Some(i) => {
            let ghost before = strs(v@);
            v.remove(i);
            assert(strs(v@) =~= before.remove(i as int));
            let ghost after = strs(v@);
            assert(after.to_set() =~= before.to_set().remove(s@)) by {
                assert forall|t: Seq<char>| after.contains(t) implies before.contains(t) && t
                    != s@ by {
                    let j = choose|j: int| 0 <= j < after.len() && after[j] == t;
                    if j < i {
                        assert(before[j] == t);
                        assert(before[i as int] == s@);
                    } else {
                        assert(before[j + 1] == t);
                        assert(before[i as int] == s@);
                    }
                }
                assert forall|t: Seq<char>| before.contains(t) && t != s@ implies after.contains(
                    t,
                ) by {
                    let j = choose|j: int| 0 <= j < before.len() && before[j] == t;
                    assert(before[i as int] == s@);
                    if j < i {
                        assert(after[j] == t);
                    } else {
                        assert(after[j - 1] == t);
                    }
                }
            }
        },
        None => {
            assert(strs(v@).to_set() =~= strs(v@).to_set().remove(s@));
        },
    }
}

/// The topics a connection listens to.
pub struct HandlerSet {
    exact_names: Vec<String>,
    prefix: Vec<String>,
}

impl View for HandlerSet {
    type V = Interest;

    closed spec fn view(&self) -> Interest {
        (strs(self.exact_names@).to_set(), strs(self.prefix@).to_set())
    }
}

impl HandlerSet {
    /// Each list holds each string once.
    pub closed spec fn wf(&self) -> bool {
        strs(self.exact_names@).no_duplicates() && strs(self.prefix@).no_duplicates()
    }

    /// An empty registry.
    pub fn new() -> (r: Self)
        ensures
            r.wf(),
            r@ == (Set::<Seq<char>>::empty(), Set::<Seq<char>>::empty()),
    {
        let r = HandlerSet { exact_names: Vec::new(), prefix: Vec::new() };
        assert(r@.0 =~= Set::<Seq<char>>::empty());
        assert(r@.1 =~= Set::<Seq<char>>::empty());
        r
    }

    /// Subscribes to `name`: a prefix if it starts with the wildcard, else an
    /// exact topic. Subscribing again changes nothing.
    pub fn listen(&mut self, name: String)
        requires
            old(self).wf(),
        ensures
            final(self).wf(),
            final(self)@ == listen_spec(old(self)@, name@),
    {
        match strip_char_prefix(name.as_str(), WILDCARD) {
            Some(rest) => {
                let rest = rest.to_string();
                insert_unique(&mut self.prefix, rest);
            },
            None => {
                insert_unique(&mut self.exact_names, name);
            },
        }
    }

    /// Unsubscribes from `name`, read as `listen` reads it. Removing what is
    /// not there changes nothing.
    pub fn unlisten(&mut self, name: String)
        requires
            old(self).wf(),
        ensures
            final(self).wf(),
            final(self)@ == unlisten_spec(old(self)@, name@),
    {
        match strip_char_prefix(name.as_str(), WILDCARD) {
            Some(rest) => {
                let rest = rest.to_string();
                remove_unique(&mut self.prefix, &rest);
            },
            None => {
                remove_unique(&mut self.exact_names, &name);
            },
        }
    }

    /// Whether a message on `name` is of interest.
    pub fn is_listening(&self, name: &String) -> (r: bool)
        ensures
            r == listening_spec(self@, name@),
    {
        if let Some(i) = position(&self.exact_names, name) {
            assert(strs(self.exact_names@)[i as int] == name@);
            return true;
        }
        let mut i: usize = 0;
        while i < self.prefix.len()
            invariant
                i <= self.prefix@.len(),
                forall|j: int| 0 <= j < i ==> !self.prefix@[j]@.is_prefix_of(name@),
            decreases self.prefix@.len() - i,
        {
            if str_starts_with(name.as_str(), self.prefix[i].as_str()) {
                assert(strs(self.prefix@)[i as int] == self.prefix@[i as int]@);
                return true;
            }
            i += 1;
        }
        proof {
            assert forall|p: Seq<char>| self@.1.contains(p) implies !p.is_prefix_of(name@) by {
                let j = choose|j: int| 0 <= j < strs(self.prefix@).len() && strs(self.prefix@)[j] == p;
            }
        }
        false
    }
}

/// Subscribing twice to a topic leaves the registry as subscribing once.
pub proof fn lemma_listen_idempotent(v: Interest, t: Seq<char>)
    ensures
        listen_spec(listen_spec(v, t), t) == listen_spec(v, t),
{
    assert(listen_spec(listen_spec(v, t), t).0 =~= listen_spec(v, t).0);
    assert(listen_spec(listen_spec(v, t), t).1 =~= listen_spec(v, t).1);
}

/// Unsubscribing twice from a topic leaves the registry as unsubscribing once.
pub proof fn lemma_unlisten_idempotent(v: Interest, t: Seq<char>)
    ensures
        unlisten_spec(unlisten_spec(v, t), t) == unlisten_spec(v, t),
{
    assert(unlisten_spec(unlisten_spec(v, t), t).0 =~= unlisten_spec(v, t).0);
    assert(unlisten_spec(unlisten_spec(v, t), t).1 =~= unlisten_spec(v, t).1);
}

} // verus!
