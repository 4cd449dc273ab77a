use vstd::prelude::*;
use vstd::hash_map::StringHashMap;

verus! {

/// A set of function names.
pub struct NameSet {
    names: StringHashMap<()>,
}

impl View for NameSet {
    type V = Set<Seq<char>>;

    closed spec fn view(&self) -> Set<Seq<char>> {
        self.names@.dom()
    }
}

impl NameSet {
    /// The empty set.
    pub fn new() -> (set: NameSet)
        ensures
            set@ == Set::<Seq<char>>::empty(),
    {
        let set = NameSet { names: StringHashMap::new() };
        assert(set@ =~= Set::<Seq<char>>::empty());
        set
    }

    /// Adds `name`; a name that is already present stays once.
    pub fn insert(&mut self, name: String)
        ensures
            final(self)@ == old(self)@.insert(name@),
    {
        self.names.insert(name, ());
        assert(self@ =~= old(self)@.insert(name@));
    }

    /// Whether `name` is in the set.
    pub fn contains(&self, name: &str) -> (found: bool)
        ensures
            found == self@.contains(name@),
    {
        self.names.contains_key(name)
    }

    /// Whether the set holds no name at all.
    pub fn is_empty(&self) -> (empty: bool)
        ensures
            empty == (self@ == Set::<Seq<char>>::empty()),
    {
        let empty = self.names.is_empty();
        proof {
            if empty {
                assert(self@ =~= Set::<Seq<char>>::empty());
            } else {
                assert(self@ != Set::<Seq<char>>::empty());
            }
        }
        empty
    }

    /// The number of distinct names in the set.
    pub fn len(&self) -> (count: usize)
        ensures
            count == self@.len(),
    {
        self.names.len()
    }
}

/// The names that the items of a list give, where `gives(item, name)` says
/// that an item gives a name.
pub open spec fn names_given<A>(items: Seq<A>, gives: spec_fn(A, Seq<char>) -> bool) -> Set<
    Seq<char>,
> {
    Set::new(
        |name: Seq<char>| exists|i: int| 0 <= i < items.len() && gives(#[trigger] items[i], name),
    )
}

/// One more item of a list adds the names that it gives, and no others.
pub proof fn lemma_one_more_item_gives_its_names<A>(
    items: Seq<A>,
    gives: spec_fn(A, Seq<char>) -> bool,
    count: int,
)
    requires
        0 <= count < items.len(),
    ensures
        names_given(items.take(count + 1), gives) == names_given(items.take(count), gives).union(
            Set::new(|name: Seq<char>| gives(items[count], name)),
        ),
{
    let shorter = items.take(count);
    let longer = items.take(count + 1);
    assert forall|name: Seq<char>|
        names_given(longer, gives).contains(name) <==> names_given(shorter, gives).contains(name)
            || gives(items[count], name) by {
        if names_given(longer, gives).contains(name) {
            let k = choose|k: int| 0 <= k < longer.len() && gives(#[trigger] longer[k], name);
            if k < count {
                assert(gives(shorter[k], name));
            }
        }
        if names_given(shorter, gives).contains(name) {
            let k = choose|k: int| 0 <= k < shorter.len() && gives(#[trigger] shorter[k], name);
            assert(gives(longer[k], name));
        }
        if gives(items[count], name) {
            assert(gives(longer[count], name));
        }
    }
    assert(names_given(longer, gives) =~= names_given(shorter, gives).union(
        Set::new(|name: Seq<char>| gives(items[count], name)),
    ));
}

/// The function names that the registered instrumentors ask for.
///
/// It is used as a filter only: a name is either in the set or not, and the
/// empty set stands for "collect everything".
pub type RequiredFunctionSet = NameSet;

} // verus!
