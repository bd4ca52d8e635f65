//! Stories, story sets and the registry that validates them and puts them in display order.
//!
//! A story is one renderable component state; a story set groups the stories of one
//! component. The render handle `R` is whatever the renderer calls to draw the story
//! (a Dioxus render function in the catalog application); the registry never calls it.
use vstd::prelude::*;
use vstd::hash_set::StringHashSet;
use crate::text::{append_text, lemma_prefix_sorts_first, lemma_text_lt_irreflexive, lemma_text_lt_total, lemma_text_lt_transitive, same_text, text_less, text_lt};

verus! {

broadcast use vstd::seq_lib::group_to_multiset_ensures;

/// A renderable component state.
#[derive(Clone, Copy, Debug, PartialEq, Eq)]
pub struct Story<'a, R> {
    id: &'a str,
    name: &'a str,
    description: Option<&'a str>,
    render: R,
    source: &'a str,
}

/// A component and its stories.
#[derive(Clone, Copy, Debug, PartialEq, Eq)]
pub struct StorySet<'a, R> {
    id: &'a str,
    name: &'a str,
    description: Option<&'a str>,
    thumbnail: Option<&'a Story<'a, R>>,
    stories: &'a [&'a Story<'a, R>],
}

/// A registry validation failure.
#[derive(Clone, Copy, Debug, PartialEq, Eq)]
pub enum RegistryError<'a> {
    DuplicateStorySetId { id: &'a str },
    DuplicateStoryId { story_set_id: &'a str, story_id: &'a str },
    StorySetWithoutStories { story_set_id: &'a str },
}

/// Builds a story from its route identifier, display name, Markdown description, render
/// handle and Rust source.
pub fn story<'a, R>(
    id: &'a str,
    name: &'a str,
    description: Option<&'a str>,
    render: R,
    source: &'a str,
) -> (r: Story<'a, R>)
    ensures
        r.spec_id() == id,
        r.spec_name() == name,
        r.spec_description() == description,
        r.spec_render() == render,
        r.spec_source() == source,
{
    Story { id, name, description, render, source }
}

/// Builds a story set from its route identifier, display name, Markdown description,
/// optional thumbnail story and stories.
pub fn story_set<'a, R>(
    id: &'a str,
    name: &'a str,
    description: Option<&'a str>,
    thumbnail: Option<&'a Story<'a, R>>,
    stories: &'a [&'a Story<'a, R>],
) -> (r: StorySet<'a, R>)
    ensures
        r.spec_id() == id,
        r.spec_name() == name,
        r.spec_description() == description,
        r.spec_thumbnail() == thumbnail,
        r.spec_stories() == stories@,
{
    StorySet { id, name, description, thumbnail, stories }
}

impl<'a, R> Story<'a, R> {
    pub closed spec fn spec_id(self) -> &'a str {
        self.id
    }

    pub closed spec fn spec_name(self) -> &'a str {
        self.name
    }

    pub closed spec fn spec_description(self) -> Option<&'a str> {
        self.description
    }

    pub closed spec fn spec_render(self) -> R {
        self.render
    }

    pub closed spec fn spec_source(self) -> &'a str {
        self.source
    }

    /// The route identifier.
    pub fn id(&self) -> (r: &'a str)
        ensures
            r == self.spec_id(),
    {
        self.id
    }

    /// The display name.
    pub fn name(&self) -> (r: &'a str)
        ensures
            r == self.spec_name(),
    {
        self.name
    }

    /// The Markdown description, if any.
    pub fn description(&self) -> (r: Option<&'a str>)
        ensures
            r == self.spec_description(),
    {
        self.description
    }

    /// The Rust source of the story function.
    pub fn source(&self) -> (r: &'a str)
        ensures
            r == self.spec_source(),
    {
        self.source
    }
}

impl<'a, R: Copy> Story<'a, R> {
    /// The render handle.
    pub fn render(&self) -> (r: R)
        ensures
            r == self.spec_render(),
    {
        self.render
    }
}

impl<'a, R> StorySet<'a, R> {
    pub closed spec fn spec_id(self) -> &'a str {
        self.id
    }

    pub closed spec fn spec_name(self) -> &'a str {
        self.name
    }

    pub closed spec fn spec_description(self) -> Option<&'a str> {
        self.description
    }

    pub closed spec fn spec_thumbnail(self) -> Option<&'a Story<'a, R>> {
        self.thumbnail
    }

    pub closed spec fn spec_stories(self) -> Seq<&'a Story<'a, R>> {
        self.stories@
    }

    /// The first story, if any.
    pub open spec fn spec_first_story(self) -> Option<&'a Story<'a, R>> {
        if self.spec_stories().len() > 0 {
            Some(self.spec_stories()[0])
        } else {
            None
        }
    }

    /// The route identifier.
    pub fn id(&self) -> (r: &'a str)
        ensures
            r == self.spec_id(),
    {
        self.id
    }

    /// The display name.
    pub fn name(&self) -> (r: &'a str)
        ensures
            r == self.spec_name(),
    {
        self.name
    }

    /// The Markdown description, if any.
    pub fn description(&self) -> (r: Option<&'a str>)
        ensures
            r == self.spec_description(),
    {
        self.description
    }

    /// The stories, in declaration order.
    pub fn stories(&self) -> (r: &'a [&'a Story<'a, R>])
        ensures
            r@ == self.spec_stories(),
    {
        self.stories
    }

    /// The first story, if any.
    pub fn first_story(&self) -> (r: Option<&'a Story<'a, R>>)
        ensures
            r == self.spec_first_story(),
    {
        if self.stories.len() > 0 {
            Some(self.stories[0])
        } else {
            None
        }
    }

    /// The thumbnail story; falls back to the first story.
    pub fn thumbnail(&self) -> (r: Option<&'a Story<'a, R>>)
        ensures
            r == match self.spec_thumbnail() {
                Some(t) => Some(t),
                None => self.spec_first_story(),
            },
    {
        match self.thumbnail {
            Some(t) => Some(t),
            None => self.first_story(),
        }
    }
}

// ----- Display order -----

/// `x` sorts strictly before `y` in display order: by display name, then by identifier.
pub open spec fn display_lt<'a, R>(x: &StorySet<'a, R>, y: &StorySet<'a, R>) -> bool {
    ||| text_lt(x.spec_name()@, y.spec_name()@)
    ||| x.spec_name()@ == y.spec_name()@ && text_lt(x.spec_id()@, y.spec_id()@)
}

/// Each story set is at or before every later one in display order.
pub open spec fn in_display_order<'a, R>(s: Seq<&'a StorySet<'a, R>>) -> bool {
    forall|i: int, j: int| 0 <= i < j < s.len() ==> !display_lt(#[trigger] s[j], #[trigger] s[i])
}

/// `s` holds exactly the registrations `registrations`, in display order.
pub open spec fn is_display_order_of<'a, R>(
    s: Seq<&'a StorySet<'a, R>>,
    registrations: Seq<&'a StorySet<'a, R>>,
) -> bool {
    &&& s.to_multiset() == registrations.to_multiset()
    &&& in_display_order(s)
}

proof fn lemma_display_lt_transitive<'a, R>(
    x: &StorySet<'a, R>,
    y: &StorySet<'a, R>,
    z: &StorySet<'a, R>,
)
    requires
        display_lt(x, y),
        display_lt(y, z),
    ensures
        display_lt(x, z),
{
    lemma_text_lt_irreflexive(x.spec_name()@);
    lemma_text_lt_irreflexive(y.spec_name()@);
    if text_lt(x.spec_name()@, y.spec_name()@) && text_lt(y.spec_name()@, z.spec_name()@) {
        lemma_text_lt_transitive(x.spec_name()@, y.spec_name()@, z.spec_name()@);
    }
    if x.spec_name()@ == y.spec_name()@ && y.spec_name()@ == z.spec_name()@ {
        lemma_text_lt_transitive(x.spec_id()@, y.spec_id()@, z.spec_id()@);
    }
}

fn display_less<'a, R>(x: &StorySet<'a, R>, y: &StorySet<'a, R>) -> (r: bool)
    ensures
        r == display_lt(x, y),
{
    text_less(x.name, y.name) || (same_text(x.name, y.name) && text_less(x.id, y.id))
}

proof fn lemma_insert_to_multiset<A>(s: Seq<A>, j: int, x: A)
    requires
        0 <= j <= s.len(),
    ensures
        s.insert(j, x).to_multiset() == s.to_multiset().insert(x),
{
    let t = s.insert(j, x);
    assert(t.remove(j) == s);
    assert(t[j] == x);
    assert(t.to_multiset().count(x) > 0) by {
        assert(t.contains(x));
    }
    assert(t.to_multiset().remove(x) == s.to_multiset());
    assert(t.to_multiset() =~= s.to_multiset().insert(x));
}

/// The position at which `x` enters the display-ordered `s`: before the first story set that
/// `x` sorts strictly before, or at the end, so after every story set with an equal key.
pub open spec fn insert_position<'a, R>(s: Seq<&'a StorySet<'a, R>>, x: &'a StorySet<'a, R>) -> nat
    decreases s.len(),
{
    if s.len() == 0 {
        0
    } else if display_lt(x, s[0]) {
        0
    } else {
        1 + insert_position(s.drop_first(), x)
    }
}

/// The registrations in stable display order: each registration in turn enters at its
/// `insert_position`, so story sets with equal keys keep their registration order.
pub open spec fn stable_display_order<'a, R>(registrations: Seq<&'a StorySet<'a, R>>) -> Seq<
    &'a StorySet<'a, R>,
>
    decreases registrations.len(),
{
    if registrations.len() == 0 {
        seq![]
    } else {
        let sorted = stable_display_order(registrations.drop_last());
        sorted.insert(insert_position(sorted, registrations.last()) as int, registrations.last())
    }
}

proof fn lemma_insert_position_is<'a, R>(s: Seq<&'a StorySet<'a, R>>, x: &'a StorySet<'a, R>, j: int)
    requires
        0 <= j <= s.len(),
        forall|m: int| 0 <= m < j ==> !display_lt(x, #[trigger] s[m]),
        j == s.len() || display_lt(x, s[j]),
    ensures
        insert_position(s, x) == j,
    decreases j,
{
    if j > 0 {
        let t = s.drop_first();
        assert forall|m: int| 0 <= m < j - 1 implies !display_lt(x, #[trigger] t[m]) by {
            assert(t[m] == s[m + 1]);
        }
        if j < s.len() {
            assert(t[j - 1] == s[j]);
        }
        lemma_insert_position_is(t, x, j - 1);
    }
}

proof fn lemma_insert_position_bounds<'a, R>(s: Seq<&'a StorySet<'a, R>>, x: &'a StorySet<'a, R>)
    ensures
        insert_position(s, x) <= s.len(),
        forall|m: int| 0 <= m < insert_position(s, x) ==> !display_lt(x, #[trigger] s[m]),
        insert_position(s, x) < s.len() ==> display_lt(x, s[insert_position(s, x) as int]),
    decreases s.len(),
{
    if s.len() > 0 && !display_lt(x, s[0]) {
        let t = s.drop_first();
        lemma_insert_position_bounds(t, x);
        assert forall|m: int| 0 <= m < insert_position(s, x) implies !display_lt(x, #[trigger] s[m]) by {
            if m > 0 {
                assert(s[m] == t[m - 1]);
            }
        }
        if insert_position(s, x) < s.len() {
            assert(s[insert_position(s, x) as int] == t[insert_position(t, x) as int]);
        }
    }
}

/// The stable display order holds exactly the registrations, in display order.
pub proof fn lemma_stable_display_order<'a, R>(registrations: Seq<&'a StorySet<'a, R>>)
    ensures
        is_display_order_of(stable_display_order(registrations), registrations),
    decreases registrations.len(),
{
    broadcast use vstd::seq_lib::group_to_multiset_ensures;

    if registrations.len() == 0 {
        assert(registrations.to_multiset().len() == 0);
        assert(stable_display_order(registrations).to_multiset() =~= registrations.to_multiset());
    } else {
        let before = stable_display_order(registrations.drop_last());
        let x = registrations.last();
        lemma_stable_display_order(registrations.drop_last());
        lemma_insert_position_bounds(before, x);
        let j = insert_position(before, x) as int;
        let t = stable_display_order(registrations);
        assert(t == before.insert(j, x));
        lemma_insert_to_multiset(before, j, x);
        assert(registrations == registrations.drop_last().push(x));
        assert(registrations.drop_last().push(x).to_multiset() == registrations.drop_last().to_multiset().insert(x));
        assert forall|p: int, q: int| 0 <= p < q < t.len() implies !display_lt(
            #[trigger] t[q],
            #[trigger] t[p],
        ) by {
            if q == j {
                assert(t[p] == before[p]);
            } else if p == j {
                assert(t[q] == before[q - 1]);
                if display_lt(t[q], x) {
                    assert(display_lt(x, before[j]));
                    lemma_display_lt_transitive(t[q], x, before[j]);
                    if q - 1 > j {
                        assert(!display_lt(before[q - 1], before[j]));
                    } else {
                        lemma_display_lt_irreflexive(before[j]);
                    }
                }
            } else {
                let pp = if p < j { p } else { p - 1 };
                let qq = if q < j { q } else { q - 1 };
                assert(t[p] == before[pp]);
                assert(t[q] == before[qq]);
            }
        }
    }
}

/// Sorts story sets into display order, stably: story sets with equal keys keep their
/// registration order.
pub fn sort_for_display<'a, R>(registrations: &Vec<&'a StorySet<'a, R>>) -> (r: Vec<&'a StorySet<'a, R>>)
    ensures
        r@ == stable_display_order(registrations@),
        is_display_order_of(r@, registrations@),
{
    let mut sorted: Vec<&'a StorySet<'a, R>> = Vec::new();
    let mut i: usize = 0;
    while i < registrations.len()
        invariant
            i <= registrations.len(),
            sorted@ == stable_display_order(registrations@.take(i as int)),
        decreases registrations.len() - i,
    {
        let x = registrations[i];
        let mut j: usize = 0;
        while j < sorted.len() && !display_less(x, sorted[j])
            invariant
                j <= sorted.len(),
                forall|m: int| 0 <= m < j ==> !display_lt(x, #[trigger] sorted@[m]),
            decreases sorted.len() - j,
        {
            j += 1;
        }
        proof {
            lemma_insert_position_is(sorted@, x, j as int);
            let next = registrations@.take(i + 1);
            assert(next.drop_last() == registrations@.take(i as int));
            assert(next.last() == x);
        }
        sorted.insert(j, x);
        i += 1;
    }
    assert(registrations@.take(registrations.len() as int) == registrations@);
    proof {
        lemma_stable_display_order(registrations@);
    }
    sorted
}

/// Two story sets with the same display name and the same identifier.
pub open spec fn same_key<'a, R>(x: &StorySet<'a, R>, y: &StorySet<'a, R>) -> bool {
    x.spec_name()@ == y.spec_name()@ && x.spec_id()@ == y.spec_id()@
}

/// No two different story sets in `s` share a display name and an identifier.
pub open spec fn keys_identify<'a, R>(s: Seq<&'a StorySet<'a, R>>) -> bool {
    forall|x: &'a StorySet<'a, R>, y: &'a StorySet<'a, R>|
        #[trigger] s.contains(x) && #[trigger] s.contains(y) && same_key(x, y) ==> x == y
}

proof fn lemma_display_lt_total<'a, R>(x: &StorySet<'a, R>, y: &StorySet<'a, R>)
    ensures
        display_lt(x, y) || display_lt(y, x) || same_key(x, y),
{
    lemma_text_lt_total(x.spec_name()@, y.spec_name()@);
    lemma_text_lt_total(x.spec_id()@, y.spec_id()@);
}

proof fn lemma_display_order_unique<'a, R>(a: Seq<&'a StorySet<'a, R>>, b: Seq<&'a StorySet<'a, R>>)
    requires
        in_display_order(a),
        in_display_order(b),
        a.to_multiset() == b.to_multiset(),
        keys_identify(a),
    ensures
        a == b,
    decreases a.len(),
{
    broadcast use vstd::seq_lib::group_to_multiset_ensures;

    assert(a.to_multiset().len() == a.len());
    assert(b.to_multiset().len() == b.len());
    if a.len() > 0 {
        let x = a[0];
        let y = b[0];
        assert(a.contains(x));
        assert(b.contains(y));
        assert(b.to_multiset().count(x) > 0);
        assert(a.to_multiset().count(y) > 0);
        assert(b.contains(x));
        assert(a.contains(y));
        if x != y {
            let k = choose|k: int| 0 <= k < b.len() && b[k] == x;
            let l = choose|l: int| 0 <= l < a.len() && a[l] == y;
            assert(!display_lt(b[k], b[0]));
            assert(!display_lt(a[l], a[0]));
            lemma_display_lt_total(x, y);
        }
        let a1 = a.drop_first();
        let b1 = b.drop_first();
        assert(a1 == a.remove(0));
        assert(b1 == b.remove(0));
        assert(a1.to_multiset() == a.to_multiset().remove(x));
        assert(b1.to_multiset() == b.to_multiset().remove(y));
        assert forall|i: int, j: int| 0 <= i < j < a1.len() implies !display_lt(#[trigger] a1[j], #[trigger] a1[i]) by {
            assert(a1[i] == a[i + 1]);
            assert(a1[j] == a[j + 1]);
        }
        assert forall|i: int, j: int| 0 <= i < j < b1.len() implies !display_lt(#[trigger] b1[j], #[trigger] b1[i]) by {
            assert(b1[i] == b[i + 1]);
            assert(b1[j] == b[j + 1]);
        }
        assert forall|u: &'a StorySet<'a, R>, v: &'a StorySet<'a, R>|
            #[trigger] a1.contains(u) && #[trigger] a1.contains(v) && same_key(u, v) implies u == v by {
            let iu = choose|i: int| 0 <= i < a1.len() && a1[i] == u;
            let iv = choose|i: int| 0 <= i < a1.len() && a1[i] == v;
            assert(a[iu + 1] == u);
            assert(a[iv + 1] == v);
            assert(a.contains(u));
            assert(a.contains(v));
        }
        lemma_display_order_unique(a1, b1);
        assert(a =~= b) by {
            assert forall|i: int| 0 <= i < a.len() implies a[i] == b[i] by {
                if i > 0 {
                    assert(a[i] == a1[i - 1]);
                    assert(b[i] == b1[i - 1]);
                }
            }
        }
    }
}

/// The order of registration does not matter when no two different registrations share a
/// display name and an identifier: the same registrations, in any order, give the same
/// display order, and so the same registry or the same first failure.
pub proof fn lemma_registration_order_irrelevant<'a, R>(
    p: Seq<&'a StorySet<'a, R>>,
    q: Seq<&'a StorySet<'a, R>>,
)
    requires
        p.to_multiset() == q.to_multiset(),
        keys_identify(p),
    ensures
        stable_display_order(p) == stable_display_order(q),
        registry_error(stable_display_order(p), p.len()) == registry_error(stable_display_order(q), q.len()),
{
    broadcast use vstd::seq_lib::group_to_multiset_ensures;

    lemma_stable_display_order(p);
    lemma_stable_display_order(q);
    let a = stable_display_order(p);
    assert forall|u: &'a StorySet<'a, R>, v: &'a StorySet<'a, R>|
        #[trigger] a.contains(u) && #[trigger] a.contains(v) && same_key(u, v) implies u == v by {
        assert(a.to_multiset().count(u) > 0);
        assert(a.to_multiset().count(v) > 0);
        assert(p.contains(u));
        assert(p.contains(v));
    }
    lemma_display_order_unique(a, stable_display_order(q));
    assert(p.to_multiset().len() == p.len());
    assert(q.to_multiset().len() == q.len());
}

proof fn lemma_display_lt_irreflexive<'a, R>(x: &StorySet<'a, R>)
    ensures
        !display_lt(x, x),
{
    lemma_text_lt_irreflexive(x.spec_name()@);
    lemma_text_lt_irreflexive(x.spec_id()@);
}

/// A story set whose display name is a proper prefix of another's comes first in display
/// order, whatever their identifiers ("Button" before "Button Group").
pub proof fn lemma_name_prefix_sorts_first<'a, R>(x: &StorySet<'a, R>, y: &StorySet<'a, R>, s: Seq<char>)
    requires
        s.len() > 0,
        y.spec_name()@ == x.spec_name()@ + s,
    ensures
        display_lt(x, y),
        !display_lt(y, x),
{
    lemma_prefix_sorts_first(x.spec_name()@, s);
    assert(y.spec_name()@ != x.spec_name()@) by {
        assert(y.spec_name()@.len() > x.spec_name()@.len());
    }
}

/// In every registry order, a story set whose display name is a proper prefix of another's
/// stands before it.
pub proof fn lemma_display_order_puts_prefix_first<'a, R>(
    sorted: Seq<&'a StorySet<'a, R>>,
    i: int,
    j: int,
    s: Seq<char>,
)
    requires
        in_display_order(sorted),
        0 <= i < sorted.len(),
        0 <= j < sorted.len(),
        s.len() > 0,
        sorted[j].spec_name()@ == sorted[i].spec_name()@ + s,
    ensures
        i < j,
{
    lemma_name_prefix_sorts_first(sorted[i], sorted[j], s);
    if j < i {
        assert(!display_lt(sorted[i], sorted[j]));
    }
    if i == j {
        assert(sorted[j].spec_name()@.len() > sorted[i].spec_name()@.len());
    }
}

// ----- Validation -----

/// Some earlier story set in `s` has the same identifier as `s[i]`.
pub open spec fn has_earlier_set_id<'a, R>(s: Seq<&'a StorySet<'a, R>>, i: int) -> bool {
    exists|j: int| 0 <= j < i && (#[trigger] s[j]).spec_id()@ == s[i].spec_id()@
}

/// Some earlier story in `stories` has the same identifier as `stories[i]`.
pub open spec fn has_earlier_story_id<'a, R>(stories: Seq<&'a Story<'a, R>>, i: int) -> bool {
    exists|j: int| 0 <= j < i && (#[trigger] stories[j]).spec_id()@ == stories[i].spec_id()@
}

/// Among the first `n` stories, the identifier of the first one that repeats an earlier
/// identifier.
pub open spec fn first_duplicate_story_id<'a, R>(stories: Seq<&'a Story<'a, R>>, n: nat) -> Option<
    &'a str,
>
    decreases n,
{
    if n == 0 {
        None
    } else {
        match first_duplicate_story_id(stories, (n - 1) as nat) {
            Some(id) => Some(id),
            None => if has_earlier_story_id(stories, n - 1) {
                Some(stories[n - 1].spec_id())
            } else {
                None
            },
        }
    }
}

proof fn lemma_first_duplicate_story_id_stable<'a, R>(stories: Seq<&'a Story<'a, R>>, k: nat, n: nat)
    requires
        k <= n,
        first_duplicate_story_id(stories, k) is Some,
    ensures
        first_duplicate_story_id(stories, n) == first_duplicate_story_id(stories, k),
    decreases n - k,
{
    if k < n {
        lemma_first_duplicate_story_id_stable(stories, k, (n - 1) as nat);
    }
}

proof fn lemma_registry_error_stable<'a, R>(s: Seq<&'a StorySet<'a, R>>, k: nat, n: nat)
    requires
        k <= n,
        registry_error(s, k) is Some,
    ensures
        registry_error(s, n) == registry_error(s, k),
    decreases n - k,
{
    if k < n {
        lemma_registry_error_stable(s, k, (n - 1) as nat);
    }
}

/// The failure that the story set at position `i` of `s` causes, checked in the order
/// duplicate set identifier, empty set, duplicate story identifier.
pub open spec fn set_error<'a, R>(s: Seq<&'a StorySet<'a, R>>, i: int) -> Option<RegistryError<'a>> {
    if has_earlier_set_id(s, i) {
        Some(RegistryError::DuplicateStorySetId { id: s[i].spec_id() })
    } else if s[i].spec_stories().len() == 0 {
        Some(RegistryError::StorySetWithoutStories { story_set_id: s[i].spec_id() })
    } else {
        match first_duplicate_story_id(s[i].spec_stories(), s[i].spec_stories().len()) {
            Some(story_id) => Some(
                RegistryError::DuplicateStoryId { story_set_id: s[i].spec_id(), story_id },
            ),
            None => None,
        }
    }
}

/// The first failure among the first `n` story sets of `s`.
pub open spec fn registry_error<'a, R>(s: Seq<&'a StorySet<'a, R>>, n: nat) -> Option<
    RegistryError<'a>,
>
    decreases n,
{
    if n == 0 {
        None
    } else {
        match registry_error(s, (n - 1) as nat) {
            Some(e) => Some(e),
            None => set_error(s, n - 1),
        }
    }
}

/// The outcome of validating the story sets `s` in their given order.
pub open spec fn validation_result<'a, R>(s: Seq<&'a StorySet<'a, R>>) -> Result<
    (),
    RegistryError<'a>,
> {
    match registry_error(s, s.len()) {
        Some(e) => Err(e),
        None => Ok(()),
    }
}

// ----- Validity -----

/// A story set has a story, and no two of its stories share an identifier.
pub open spec fn set_is_valid<'a, R>(set: &'a StorySet<'a, R>) -> bool {
    &&& set.spec_stories().len() > 0
    &&& forall|a: int, b: int|
        0 <= a < b < set.spec_stories().len() ==> (#[trigger] set.spec_stories()[a]).spec_id()@
            != (#[trigger] set.spec_stories()[b]).spec_id()@
}

/// No two story sets share an identifier, and every story set is valid.
pub open spec fn registry_is_valid<'a, R>(s: Seq<&'a StorySet<'a, R>>) -> bool {
    &&& forall|i: int, j: int| 0 <= i < j < s.len() ==> (#[trigger] s[i]).spec_id()@ != (#[trigger] s[j]).spec_id()@
    &&& forall|i: int| 0 <= i < s.len() ==> set_is_valid(#[trigger] s[i])
}

proof fn lemma_no_duplicate_story_id<'a, R>(stories: Seq<&'a Story<'a, R>>, n: nat)
    requires
        n <= stories.len(),
    ensures
        first_duplicate_story_id(stories, n) is None <==> forall|a: int, b: int|
            0 <= a < b < n ==> (#[trigger] stories[a]).spec_id()@ != (#[trigger] stories[b]).spec_id()@,
    decreases n,
{
    if n > 0 {
        lemma_no_duplicate_story_id(stories, (n - 1) as nat);
        if has_earlier_story_id(stories, n - 1) {
            let j = choose|j: int| 0 <= j < n - 1 && (#[trigger] stories[j]).spec_id()@ == stories[n - 1].spec_id()@;
            assert(stories[j].spec_id()@ == stories[n - 1].spec_id()@);
        }
    }
}

proof fn lemma_no_registry_error<'a, R>(s: Seq<&'a StorySet<'a, R>>, n: nat)
    requires
        n <= s.len(),
    ensures
        registry_error(s, n) is None <==> {
            &&& forall|i: int, j: int| 0 <= i < j < n ==> (#[trigger] s[i]).spec_id()@ != (#[trigger] s[j]).spec_id()@
            &&& forall|i: int| 0 <= i < n ==> set_is_valid(#[trigger] s[i])
        },
    decreases n,
{
    if n > 0 {
        lemma_no_registry_error(s, (n - 1) as nat);
        let last = s[n - 1];
        lemma_no_duplicate_story_id(last.spec_stories(), last.spec_stories().len());
        if has_earlier_set_id(s, n - 1) {
            let j = choose|j: int| 0 <= j < n - 1 && (#[trigger] s[j]).spec_id()@ == s[n - 1].spec_id()@;
            assert(s[j].spec_id()@ == s[n - 1].spec_id()@);
        }
    }
}

/// The registry check finds no failure exactly when no two story sets share an
/// identifier, no story set is empty, and no two stories of a set share an identifier.
pub proof fn lemma_registry_error_free_iff_valid<'a, R>(s: Seq<&'a StorySet<'a, R>>)
    ensures
        registry_error(s, s.len()) is None <==> registry_is_valid(s),
{
    lemma_no_registry_error(s, s.len());
}

proof fn lemma_valid_under_permutation<'a, R>(s: Seq<&'a StorySet<'a, R>>, t: Seq<&'a StorySet<'a, R>>)
    requires
        s.to_multiset() == t.to_multiset(),
        registry_is_valid(s),
    ensures
        registry_is_valid(t),
{
    assert forall|i: int| 0 <= i < t.len() implies set_is_valid(#[trigger] t[i]) by {
        assert(t.contains(t[i]));
        assert(t.to_multiset().count(t[i]) > 0);
        assert(s.to_multiset().count(t[i]) > 0);
        assert(s.contains(t[i]));
        let p = choose|p: int| 0 <= p < s.len() && s[p] == t[i];
        assert(set_is_valid(s[p]));
    }
    assert(s.no_duplicates()) by {
        assert forall|i: int, j: int| 0 <= i < s.len() && 0 <= j < s.len() && i != j implies s[i] != s[j] by {
            if i < j {
                assert(s[i].spec_id()@ != s[j].spec_id()@);
            } else {
                assert(s[j].spec_id()@ != s[i].spec_id()@);
            }
        }
    }
    s.lemma_multiset_has_no_duplicates();
    t.lemma_multiset_has_no_duplicates_conv();
    assert forall|i: int, j: int| 0 <= i < j < t.len() implies (#[trigger] t[i]).spec_id()@ != (#[trigger] t[j]).spec_id()@ by {
        assert(t.contains(t[i]));
        assert(t.contains(t[j]));
        assert(t.to_multiset().count(t[i]) > 0);
        assert(t.to_multiset().count(t[j]) > 0);
        assert(s.to_multiset().count(t[i]) > 0);
        assert(s.to_multiset().count(t[j]) > 0);
        assert(s.contains(t[i]));
        assert(s.contains(t[j]));
        let p = choose|p: int| 0 <= p < s.len() && s[p] == t[i];
        let q = choose|q: int| 0 <= q < s.len() && s[q] == t[j];
        assert(t[i] != t[j]);
        assert(p != q);
        if p < q {
            assert(s[p].spec_id()@ != s[q].spec_id()@);
        } else {
            assert(s[q].spec_id()@ != s[p].spec_id()@);
        }
    }
}

/// Validity does not depend on the order of registration: two sequences of the same story
/// sets are valid or invalid together.
pub proof fn lemma_validity_ignores_order<'a, R>(s: Seq<&'a StorySet<'a, R>>, t: Seq<&'a StorySet<'a, R>>)
    requires
        s.to_multiset() == t.to_multiset(),
    ensures
        registry_is_valid(s) == registry_is_valid(t),
{
    if registry_is_valid(s) {
        lemma_valid_under_permutation(s, t);
    }
    if registry_is_valid(t) {
        lemma_valid_under_permutation(t, s);
    }
}

fn earlier_story_with_id<'a, R>(stories: &[&'a Story<'a, R>], index: usize) -> (r: bool)
    requires
        index < stories@.len(),
    ensures
        r == has_earlier_story_id(stories@, index as int),
{
    let mut j: usize = 0;
    while j < index
        invariant
            index < stories@.len(),
            j <= index,
            forall|m: int| 0 <= m < j ==> (#[trigger] stories@[m]).spec_id()@ != stories@[index as int].spec_id()@,
        decreases index - j,
    {
        if same_text(stories[j].id, stories[index].id) {
            return true;
        }
        j += 1;
    }
    false
}

fn earlier_set_with_id<'a, R>(story_sets: &[&'a StorySet<'a, R>], index: usize) -> (r: bool)
    requires
        index < story_sets@.len(),
    ensures
        r == has_earlier_set_id(story_sets@, index as int),
{
    let mut j: usize = 0;
    while j < index
        invariant
            index < story_sets@.len(),
            j <= index,
            forall|m: int| 0 <= m < j ==> (#[trigger] story_sets@[m]).spec_id()@ != story_sets@[index as int].spec_id()@,
        decreases index - j,
    {
        if same_text(story_sets[j].id, story_sets[index].id) {
            return true;
        }
        j += 1;
    }
    false
}

/// The identifier of the first story that repeats an earlier story's identifier.
pub fn duplicate_story_id<'a, R>(story_set: &StorySet<'a, R>) -> (r: Option<&'a str>)
    ensures
        r == first_duplicate_story_id(story_set.spec_stories(), story_set.spec_stories().len()),
{
    let stories = story_set.stories;
    let mut index: usize = 0;
    while index < stories.len()
        invariant
            index <= stories@.len(),
            stories@ == story_set.spec_stories(),
            first_duplicate_story_id(stories@, index as nat) is None,
        decreases stories@.len() - index,
    {
        if earlier_story_with_id(stories, index) {
            proof {
                lemma_first_duplicate_story_id_stable(stories@, (index + 1) as nat, stories@.len());
            }
            return Some(stories[index].id);
        }
        index += 1;
    }
    None
}

fn set_failure<'a, R>(story_sets: &[&'a StorySet<'a, R>], index: usize, duplicate_set_id: bool) -> (r: Option<RegistryError<'a>>)
    requires
        index < story_sets@.len(),
        duplicate_set_id == has_earlier_set_id(story_sets@, index as int),
    ensures
        r == set_error(story_sets@, index as int),
{
    let story_set = story_sets[index];
    if duplicate_set_id {
        return Some(RegistryError::DuplicateStorySetId { id: story_set.id });
    }
    if story_set.stories.len() == 0 {
        return Some(RegistryError::StorySetWithoutStories { story_set_id: story_set.id });
    }
    match duplicate_story_id(story_set) {
        Some(story_id) => Some(RegistryError::DuplicateStoryId { story_set_id: story_set.id, story_id }),
        None => None,
    }
}

/// Validates story sets in their given order by comparing each identifier with every
/// earlier one.
pub fn validate_unique_ids_with_linear_scan<'a, R>(story_sets: &[&'a StorySet<'a, R>]) -> (r: Result<
    (),
    RegistryError<'a>,
>)
    ensures
        r == validation_result(story_sets@),
{
    let mut index: usize = 0;
    while index < story_sets.len()
        invariant
            index <= story_sets@.len(),
            registry_error(story_sets@, index as nat) is None,
        decreases story_sets@.len() - index,
    {
        let duplicate = earlier_set_with_id(story_sets, index);
        if let Some(error) = set_failure(story_sets, index, duplicate) {
            proof {
                lemma_registry_error_stable(story_sets@, (index + 1) as nat, story_sets@.len());
            }
            return Err(error);
        }
        index += 1;
    }
    Ok(())
}

/// Validates story sets in their given order, remembering the identifiers seen so far in a
/// hash set.
pub fn validate_unique_ids_with_hash_set<'a, R>(story_sets: &[&'a StorySet<'a, R>]) -> (r: Result<
    (),
    RegistryError<'a>,
>)
    ensures
        r == validation_result(story_sets@),
{
    let mut ids = StringHashSet::with_capacity(story_sets.len());
    let mut index: usize = 0;
    while index < story_sets.len()
        invariant
            index <= story_sets@.len(),
            registry_error(story_sets@, index as nat) is None,
            forall|t: Seq<char>| ids@.contains(t) <==> exists|j: int| 0 <= j < index && (#[trigger] story_sets@[j]).spec_id()@ == t,
        decreases story_sets@.len() - index,
    {
        let id = story_sets[index].id;
        let ghost before = ids@;
        let fresh = ids.insert(id.to_owned());
        proof {
            if !fresh {
                let j = choose|j: int| 0 <= j < index && (#[trigger] story_sets@[j]).spec_id()@ == id@;
                assert(has_earlier_set_id(story_sets@, index as int));
            }
            if has_earlier_set_id(story_sets@, index as int) {
                let j = choose|j: int| 0 <= j < index && (#[trigger] story_sets@[j]).spec_id()@ == story_sets@[index as int].spec_id()@;
                assert(before.contains(id@)) by {
                    assert(story_sets@[j].spec_id()@ == id@);
                }
            }
        }
        if let Some(error) = set_failure(story_sets, index, !fresh) {
            proof {
                lemma_registry_error_stable(story_sets@, (index + 1) as nat, story_sets@.len());
            }
            return Err(error);
        }
        proof {
            assert forall|t: Seq<char>| ids@.contains(t) implies exists|j: int| 0 <= j < index + 1 && (#[trigger] story_sets@[j]).spec_id()@ == t by {
                if t != id@ {
                    let j = choose|j: int| 0 <= j < index && (#[trigger] story_sets@[j]).spec_id()@ == t;
                    assert(0 <= j < index + 1);
                } else {
                    assert(story_sets@[index as int].spec_id()@ == t);
                }
            }
        }
        index += 1;
    }
    Ok(())
}

/// The number of story sets above which validation switches from a linear scan to a hash set.
pub const STORY_SET_COUNT_LINEAR_VALIDATION_MAX: usize = 16;

/// Validates story sets in their given order; both strategies report the same first failure.
pub fn validate_unique_ids<'a, R>(story_sets: &[&'a StorySet<'a, R>]) -> (r: Result<(), RegistryError<'a>>)
    ensures
        r == validation_result(story_sets@),
{
    if story_sets.len() > STORY_SET_COUNT_LINEAR_VALIDATION_MAX {
        return validate_unique_ids_with_hash_set(story_sets);
    }
    validate_unique_ids_with_linear_scan(story_sets)
}

/// Puts registrations in display order and validates them: the result is the story sets in
/// display order, or the first failure in that order.
pub fn build_registry<'a, R>(registrations: Vec<&'a StorySet<'a, R>>) -> (r: Result<
    Vec<&'a StorySet<'a, R>>,
    RegistryError<'a>,
>)
    ensures
        r is Ok <==> registry_is_valid(registrations@),
        match r {
            Ok(v) => v@ == stable_display_order(registrations@) && is_display_order_of(v@, registrations@)
                && registry_error(v@, v@.len()) is None,
            Err(e) => registry_error(stable_display_order(registrations@), registrations@.len()) == Some(e),
        },
{
    let story_sets = sort_for_display(&registrations);
    proof {
        lemma_registry_error_free_iff_valid(story_sets@);
        lemma_validity_ignores_order(story_sets@, registrations@);
        assert(story_sets@.to_multiset().len() == registrations@.len()) by {
            broadcast use vstd::seq_lib::group_to_multiset_ensures;
        }
    }
    match validate_unique_ids(story_sets.as_slice()) {
        Ok(()) => Ok(story_sets),
        Err(e) => Err(e),
    }
}

/// Validates registered story sets: succeeds exactly when `build_registry` would.
pub fn init_registry<'a, R>(registrations: Vec<&'a StorySet<'a, R>>) -> (r: Result<(), RegistryError<'a>>)
    ensures
        r is Ok <==> registry_is_valid(registrations@),
        validation_result(stable_display_order(registrations@)) == r,
{
    proof {
        broadcast use vstd::seq_lib::group_to_multiset_ensures;
        lemma_stable_display_order(registrations@);
        assert(stable_display_order(registrations@).to_multiset().len() == registrations@.to_multiset().len());
    }
    match build_registry(registrations) {
        Ok(_) => Ok(()),
        Err(e) => Err(e),
    }
}

/// The registry build that benchmarks measure; the same as `build_registry`.
pub fn build_registry_for_benchmark<'a, R>(registrations: Vec<&'a StorySet<'a, R>>) -> (r: Result<
    Vec<&'a StorySet<'a, R>>,
    RegistryError<'a>,
>)
    ensures
        r is Ok <==> registry_is_valid(registrations@),
        match r {
            Ok(v) => v@ == stable_display_order(registrations@) && is_display_order_of(v@, registrations@)
                && registry_error(v@, v@.len()) is None,
            Err(e) => registry_error(stable_display_order(registrations@), registrations@.len()) == Some(e),
        },
{
    build_registry(registrations)
}

// ----- Lookup -----

/// The first story set in `s` whose identifier is `id`.
pub open spec fn set_with_id<'a, R>(s: Seq<&'a StorySet<'a, R>>, id: Seq<char>) -> Option<
    &'a StorySet<'a, R>,
>
    decreases s.len(),
{
    if s.len() == 0 {
        None
    } else if s[0].spec_id()@ == id {
        Some(s[0])
    } else {
        set_with_id(s.drop_first(), id)
    }
}

/// The first story in `stories` whose identifier is `id`.
pub open spec fn story_with_id<'a, R>(stories: Seq<&'a Story<'a, R>>, id: Seq<char>) -> Option<
    &'a Story<'a, R>,
>
    decreases stories.len(),
{
    if stories.len() == 0 {
        None
    } else if stories[0].spec_id()@ == id {
        Some(stories[0])
    } else {
        story_with_id(stories.drop_first(), id)
    }
}

/// The story addressed by a story set identifier and a story identifier: the first story
/// set with that identifier, and its first story with that identifier.
pub open spec fn lookup<'a, R>(
    s: Seq<&'a StorySet<'a, R>>,
    story_set_id: Seq<char>,
    story_id: Seq<char>,
) -> Option<(&'a StorySet<'a, R>, &'a Story<'a, R>)> {
    match set_with_id(s, story_set_id) {
        Some(set) => match story_with_id(set.spec_stories(), story_id) {
            Some(story) => Some((set, story)),
            None => None,
        },
        None => None,
    }
}

fn find_set<'a, R>(story_sets: &[&'a StorySet<'a, R>], id: &str) -> (r: Option<&'a StorySet<'a, R>>)
    ensures
        r == set_with_id(story_sets@, id@),
{
    let mut i: usize = 0;
    assert(story_sets@.skip(0) == story_sets@);
    while i < story_sets.len()
        invariant
            i <= story_sets@.len(),
            set_with_id(story_sets@, id@) == set_with_id(story_sets@.skip(i as int), id@),
        decreases story_sets@.len() - i,
    {
        assert(story_sets@.skip(i as int).drop_first() == story_sets@.skip(i + 1));
        if same_text(story_sets[i].id, id) {
            return Some(story_sets[i]);
        }
        i += 1;
    }
    None
}

fn find_story<'a, R>(stories: &[&'a Story<'a, R>], id: &str) -> (r: Option<&'a Story<'a, R>>)
    ensures
        r == story_with_id(stories@, id@),
{
    let mut i: usize = 0;
    assert(stories@.skip(0) == stories@);
    while i < stories.len()
        invariant
            i <= stories@.len(),
            story_with_id(stories@, id@) == story_with_id(stories@.skip(i as int), id@),
        decreases stories@.len() - i,
    {
        assert(stories@.skip(i as int).drop_first() == stories@.skip(i + 1));
        if same_text(stories[i].id, id) {
            return Some(stories[i]);
        }
        i += 1;
    }
    None
}

/// Finds a story by story set and story identifier among registered story sets.
pub fn find<'a, R>(story_sets: &[&'a StorySet<'a, R>], story_set_id: &str, story_id: &str) -> (r:
    Option<(&'a StorySet<'a, R>, &'a Story<'a, R>)>)
    ensures
        r == lookup(story_sets@, story_set_id@, story_id@),
{
    let story_set = match find_set(story_sets, story_set_id) {
        Some(set) => set,
        None => return None,
    };
    match find_story(story_set.stories, story_id) {
        Some(story) => Some((story_set, story)),
        None => None,
    }
}

// ----- Messages -----

/// The human-readable description of a registry failure.
pub open spec fn error_message<'a>(error: RegistryError<'a>) -> Seq<char> {
    match error {
        RegistryError::DuplicateStorySetId { id } => "duplicate story set ID `"@ + id@ + "`"@,
        RegistryError::DuplicateStoryId { story_set_id, story_id } => "duplicate story ID `"@
            + story_id@ + "` in story set `"@ + story_set_id@ + "`"@,
        RegistryError::StorySetWithoutStories { story_set_id } => "story set `"@ + story_set_id@
            + "` has no routed stories"@,
    }
}

impl<'a> RegistryError<'a> {
    /// The human-readable description of this failure.
    pub fn message(&self) -> (r: String)
        ensures
            r@ == error_message(*self),
    {
        match *self {
            RegistryError::DuplicateStorySetId { id } => {
                let mut text = "duplicate story set ID `".to_owned();
                append_text(&mut text, id);
                append_text(&mut text, "`");
                text
            },
            RegistryError::DuplicateStoryId { story_set_id, story_id } => {
                let mut text = "duplicate story ID `".to_owned();
                append_text(&mut text, story_id);
                append_text(&mut text, "` in story set `");
                append_text(&mut text, story_set_id);
                append_text(&mut text, "`");
                text
            },
            RegistryError::StorySetWithoutStories { story_set_id } => {
                let mut text = "story set `".to_owned();
                append_text(&mut text, story_set_id);
                append_text(&mut text, "` has no routed stories");
                text
            },
        }
    }
}

} // verus!
