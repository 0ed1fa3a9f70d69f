use vstd::prelude::*;

verus! {

/// What a list of texts holds, seen as a sequence of character sequences.
pub open spec fn texts_of(v: Seq<String>) -> Seq<Seq<char>> {
    v.map_values(|s: String| s@)
}

/// The list that results from starting at `start` and appending each of
/// `items` in turn, one call per item.
pub open spec fn after_appends(start: Seq<Seq<char>>, items: Seq<Seq<char>>) -> Seq<Seq<char>>
    decreases items.len(),
{
    if items.len() == 0 {
        start
    } else {
        after_appends(start, items.drop_last()).push(items.last())
    }
}

/// The todo list: texts in the order they were added, duplicates allowed.
/// It only ever grows at its end.
pub struct TodoStore {
    items: Vec<String>,
}

impl View for TodoStore {
    type V = Seq<Seq<char>>;

    closed spec fn view(&self) -> Seq<Seq<char>> {
        texts_of(self.items@)
    }
}

/// Copies a list of texts item by item, so that the copy is known to hold
/// the same texts.
fn copy_texts(v: &Vec<String>) -> (r: Vec<String>)
    ensures
        texts_of(r@) == texts_of(v@),
{
    let mut r: Vec<String> = Vec::with_capacity(v.len());
    let mut i: usize = 0;
    while i < v.len()
        invariant
            i <= v@.len(),
            r@.len() == i as int,
            forall|j: int| 0 <= j < i ==> #[trigger] r@[j]@ == v@[j]@,
        decreases v@.len() - i,
    {
        r.push(v[i].clone());
        i = i + 1;
    }
    assert(texts_of(r@) =~= texts_of(v@));
    r
}

impl TodoStore {
    /// A store that holds `seed`, in its order.
    pub fn new(seed: Vec<String>) -> (r: TodoStore)
        ensures
            r@ == texts_of(seed@),
    {
        TodoStore { items: seed }
    }

    /// A store that holds the three texts a fresh server starts with:
    /// "rust", "rustt" and "russst", in that order.
    pub fn seeded() -> (r: TodoStore)
        ensures
            r@ == seq!["rust"@, "rustt"@, "russst"@],
    {
        let mut seed: Vec<String> = Vec::new();
        seed.push(String::from_str("rust"));
        seed.push(String::from_str("rustt"));
        seed.push(String::from_str("russst"));
        let r = TodoStore::new(seed);
        assert(r@ =~= seq!["rust"@, "rustt"@, "russst"@]);
        r
    }

    /// How many texts the store holds.
    pub fn len(&self) -> (n: usize)
        ensures
            n as int == self@.len(),
    {
        self.items.len()
    }

    /// A copy of the current contents, in order. The store is left as it is.
    pub fn snapshot(&self) -> (r: Vec<String>)
        ensures
            texts_of(r@) == self@,
    {
        copy_texts(&self.items)
    }

    /// Adds `item` at the end, as it is (empty or repeated texts included),
    /// and returns a copy of the whole updated list.
    pub fn append(&mut self, item: String) -> (r: Vec<String>)
        ensures
            final(self)@ == old(self)@.push(item@),
            texts_of(r@) == final(self)@,
    {
        self.items.push(item);
        proof {
            assert(texts_of(self.items@) =~= texts_of(old(self).items@).push(item@));
        }
        copy_texts(&self.items)
    }
}

/// Appending a single item, as a sequence of one call, gives the list with
/// that item pushed at the end.
pub proof fn lemma_one_append(start: Seq<Seq<char>>, item: Seq<char>)
    ensures
        after_appends(start, seq![item]) == start.push(item),
{
    assert(seq![item].drop_last() =~= Seq::<Seq<char>>::empty());
    assert(after_appends(start, Seq::<Seq<char>>::empty()) == start);
}

/// Appending items one call at a time yields the old list followed by the
/// items, in the order the calls were made.
pub proof fn lemma_appends_concat(start: Seq<Seq<char>>, items: Seq<Seq<char>>)
    ensures
        after_appends(start, items) == start + items,
    decreases items.len(),
{
    if items.len() > 0 {
        lemma_appends_concat(start, items.drop_last());
        assert(start + items =~= (start + items.drop_last()).push(items.last()));
    }
}

/// No update is lost: whatever order the calls are serialized in, after one
/// append per caller the list is longer by exactly the number of callers, and
/// every appended text is in it.
pub proof fn lemma_no_lost_updates(start: Seq<Seq<char>>, items: Seq<Seq<char>>)
    ensures
        after_appends(start, items).len() == start.len() + items.len(),
        forall|k: int| 0 <= k < items.len() ==> after_appends(start, items).contains(#[trigger] items[k]),
{
    lemma_appends_concat(start, items);
    assert forall|k: int| 0 <= k < items.len() implies after_appends(start, items).contains(
        #[trigger] items[k],
    ) by {
        assert((start + items)[start.len() + k] == items[k]);
    }
}

/// Each view of the list is a prefix of every later one: nothing already in
/// it is removed or changed, and its length never decreases.
pub proof fn lemma_snapshots_grow(start: Seq<Seq<char>>, items: Seq<Seq<char>>)
    ensures
        start.len() <= after_appends(start, items).len(),
        after_appends(start, items).subrange(0, start.len() as int) == start,
{
    lemma_appends_concat(start, items);
    assert((start + items).subrange(0, start.len() as int) =~= start);
}

/// Appending the same text again and again adds one entry per call, each of
/// them that text: equal texts are not merged.
pub proof fn lemma_repeated_append_not_merged(start: Seq<Seq<char>>, x: Seq<char>, xs: Seq<Seq<char>>)
    requires
        forall|i: int| 0 <= i < xs.len() ==> #[trigger] xs[i] == x,
    ensures
        after_appends(start, xs).len() == start.len() + xs.len(),
        forall|k: int|
            start.len() <= k < start.len() + xs.len() ==> #[trigger] after_appends(start, xs)[k] == x,
{
    lemma_appends_concat(start, xs);
    assert forall|k: int| start.len() <= k < start.len() + xs.len() implies #[trigger] after_appends(
        start,
        xs,
    )[k] == x by {
        assert(xs[k - start.len()] == x);
    }
}

} // verus!
