use vstd::prelude::*;

verus! {

/// The identifiers that the user has declared to be one and the same track.
#[derive(Debug, Clone, PartialEq, Eq)]
pub struct IDs {
    pub ids: Vec<String>,
}

/// The user's table of known equivalents: for a track name, the identifiers
/// that are not to be reported against each other. Where a name is entered
/// more than once, its last entry counts.
#[derive(Debug, Clone, PartialEq, Eq)]
pub struct Trackmap {
    pub tracknames: Vec<(String, IDs)>,
}

/// The strings of a list as text, in order.
pub open spec fn texts(list: Seq<String>) -> Seq<Seq<char>> {
    Seq::new(list.len(), |i: int| list[i]@)
}

impl View for IDs {
    type V = Seq<Seq<char>>;

    open spec fn view(&self) -> Seq<Seq<char>> {
        texts(self.ids@)
    }
}

/// The map that results from entering `entries` one after the other.
pub open spec fn entered(entries: Seq<(String, IDs)>) -> Map<Seq<char>, Seq<Seq<char>>>
    decreases entries.len(),
{
    if entries.len() == 0 {
        Map::empty()
    } else {
        entered(entries.drop_last()).insert(entries.last().0@, entries.last().1@)
    }
}

impl View for Trackmap {
    type V = Map<Seq<char>, Seq<Seq<char>>>;

    open spec fn view(&self) -> Map<Seq<char>, Seq<Seq<char>>> {
        entered(self.tracknames@)
    }
}

/// Whether `list` holds a string with the text of `wanted`.
pub fn contains_text(list: &Vec<String>, wanted: &String) -> (found: bool)
    ensures
        found == texts(list@).contains(wanted@),
{
    let mut i: usize = 0;
    while i < list.len()
        invariant
            i <= list.len(),
            forall|j: int| 0 <= j < i ==> texts(list@)[j] != wanted@,
        decreases list.len() - i,
    {
        if list[i] == *wanted {
            assert(texts(list@)[i as int] == wanted@);
            return true;
        }
        i += 1;
    }
    false
}

impl Trackmap {
    /// A table without entries.
    pub fn new() -> (table: Trackmap)
        ensures
            table@ == Map::<Seq<char>, Seq<Seq<char>>>::empty(),
    {
        Trackmap { tracknames: Vec::new() }
    }

    /// Enters `ids` under `name`, in place of what stood there.
    pub fn insert(&mut self, name: String, ids: Vec<String>)
        ensures
            final(self)@ == old(self)@.insert(name@, texts(ids@)),
    {
        let ghost before = self.tracknames@;
        self.tracknames.push((name, IDs { ids }));
        assert(self.tracknames@.drop_last() == before);
    }

    /// The identifiers entered under `name`, if there is such an entry.
    pub fn get(&self, name: &String) -> (found: Option<&IDs>)
        ensures
            match found {
                Some(ids) => self@.dom().contains(name@) && ids@ == self@[name@],
                None => !self@.dom().contains(name@),
            },
    {
        let mut found: Option<&IDs> = None;
        let mut i: usize = 0;
        while i < self.tracknames.len()
            invariant
                i <= self.tracknames.len(),
                match found {
                    Some(ids) => entered(self.tracknames@.take(i as int)).dom().contains(name@)
                        && ids@ == entered(self.tracknames@.take(i as int))[name@],
                    None => !entered(self.tracknames@.take(i as int)).dom().contains(name@),
                },
            decreases self.tracknames.len() - i,
        {
            proof {
                let s = self.tracknames@;
                assert(s.take(i + 1).drop_last() == s.take(i as int));
            }
            if self.tracknames[i].0 == *name {
                found = Some(&self.tracknames[i].1);
            }
            i += 1;
        }
        assert(self.tracknames@.take(i as int) == self.tracknames@);
        found
    }
}

} // verus!
