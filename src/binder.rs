use vstd::prelude::*;

verus! {

/// One native entry point: its symbolic name and the handle it resolved to, if any.
#[derive(Clone, Debug)]
pub struct EntryPoint {
    pub name: String,
    pub handle: Option<u64>,
}

/// The resolved capability table of an extension: each requested name with
/// its optional handle, in request order. It is usable only when complete.
pub struct ExtensionBinding {
    entries: Vec<EntryPoint>,
}

impl View for ExtensionBinding {
    type V = Seq<(Seq<char>, Option<u64>)>;

    closed spec fn view(&self) -> Seq<(Seq<char>, Option<u64>)> {
        self.entries@.map_values(|e: EntryPoint| (e.name@, e.handle))
    }
}

/// Every entry resolved to a handle.
pub open spec fn complete(b: Seq<(Seq<char>, Option<u64>)>) -> bool {
    forall|i: int| 0 <= i < b.len() ==> (#[trigger] b[i]).1 is Some
}

impl ExtensionBinding {
    pub fn new() -> (r: Self)
        ensures
            r@ == Seq::<(Seq<char>, Option<u64>)>::empty(),
    {
        let r = ExtensionBinding { entries: Vec::new() };
        assert(r@ =~= Seq::<(Seq<char>, Option<u64>)>::empty());
        r
    }

    /// Records what the lookup of `name` gave; an absent symbol is `None`
    /// for this entry alone.
    pub fn bind(&mut self, name: String, handle: Option<u64>)
        ensures
            final(self)@ == old(self)@.push((name@, handle)),
    {
        let ghost n = name@;
        self.entries.push(EntryPoint { name, handle });
        assert(self@ =~= old(self)@.push((n, handle)));
    }

    /// Number of requested entry points.
    pub fn len(&self) -> (r: usize)
        ensures
            r == self@.len(),
    {
        self.entries.len()
    }

    /// Whether every requested entry point resolved: false as soon as one is absent.
    pub fn all_present(&self) -> (r: bool)
        ensures
            r == complete(self@),
            !r <==> exists|i: int| 0 <= i < self@.len() && (#[trigger] self@[i]).1 is None,
    {
        let mut i: usize = 0;
        while i < self.entries.len()
            invariant
                i <= self.entries@.len(),
                self@.len() == self.entries@.len(),
                forall|j: int| 0 <= j < i ==> (#[trigger] self@[j]).1 is Some,
            decreases self.entries.len() - i,
        {
            if self.entries[i].handle.is_none() {
                assert(self@[i as int].1 is None);
                return false;
            }
            i = i + 1;
        }
        true
    }

    /// The handle most recently bound to `name`; `None` if it was never
    /// bound or its lookup found nothing.
    pub fn get(&self, name: &String) -> (r: Option<u64>)
        ensures
            r == lookup(self@, name@),
    {
        let mut i: usize = self.entries.len();
        proof {
            assert(self@.take(i as int) =~= self@);
        }
        while i > 0
            invariant
                i <= self.entries@.len(),
                self@.len() == self.entries@.len(),
                lookup(self@, name@) == lookup(self@.take(i as int), name@),
            decreases i,
        {
            proof {
                assert(self@.take(i as int).drop_last() =~= self@.take(i - 1));
            }
            if self.entries[i - 1].name == *name {
                return self.entries[i - 1].handle;
            }
            i = i - 1;
        }
        None
    }
}

/// The handle of the last entry named `name`, if any.
pub open spec fn lookup(b: Seq<(Seq<char>, Option<u64>)>, name: Seq<char>) -> Option<u64>
    decreases b.len(),
{
    if b.len() == 0 {
        None
    } else if b.last().0 == name {
        b.last().1
    } else {
        lookup(b.drop_last(), name)
    }
}

} // verus!
