use vstd::prelude::*;

verus! {

/// The index of an interned name.
#[derive(Debug, Clone, Copy, PartialEq, Eq, Hash, Structural)]
pub struct SymId(pub usize);

/// A table of distinct names, each identified by its position.
#[derive(Debug, Default)]
pub struct Symbols {
    vec: Vec<String>,
}

impl View for Symbols {
    type V = Seq<Seq<char>>;

    closed spec fn view(&self) -> Seq<Seq<char>> {
        self.vec@.map_values(|s: String| s@)
    }
}

impl Symbols {
    /// No name is stored twice.
    pub open spec fn wf(&self) -> bool {
        self@.no_duplicates()
    }

    /// The empty table.
    pub fn new() -> (r: Symbols)
        ensures
            r.wf(),
            r@ == Seq::<Seq<char>>::empty(),
    {
        let r = Symbols { vec: Vec::new() };
        assert(r@ =~= Seq::<Seq<char>>::empty());
        r
    }

    /// The id of `s`, adding it to the table when it is new.
    pub fn intern(&mut self, s: &str) -> (id: SymId)
        requires
            old(self).wf(),
        ensures
            final(self).wf(),
            id.0 < final(self)@.len(),
            final(self)@[id.0 as int] == s@,
            forall|j: int| 0 <= j < final(self)@.len() && final(self)@[j] == s@ ==> j == id.0,
            old(self)@.contains(s@) ==> final(self)@ == old(self)@,
            !old(self)@.contains(s@) ==> final(self)@ == old(self)@.push(s@) && id.0 == old(self)@.len(),
    {
        let owned: String = s.to_owned();
        let mut i: usize = 0;
        while i < self.vec.len()
            invariant
                i <= self.vec@.len(),
                self.wf(),
                owned@ == s@,
                forall|j: int| 0 <= j < i ==> self@[j] != s@,
            decreases self.vec@.len() - i,
        {
            if self.vec[i] == owned {
                proof {
                    assert(self@[i as int] == s@);
                }
                return SymId(i);
            }
            i = i + 1;
        }
        let ghost before = self@;
        let id = SymId(self.vec.len());
        self.vec.push(owned);
        proof {
            assert(self@ =~= before.push(s@));
            assert(!before.contains(s@));
        }
        id
    }

    /// The name with id `id`.
    pub fn get(&self, id: SymId) -> (r: &str)
        requires
            id.0 < self@.len(),
        ensures
            r@ == self@[id.0 as int],
    {
        self.vec[id.0].as_str()
    }

    /// The assembler symbol of a function: the name, with a leading underscore on macOS.
    pub fn mangle_fn(sym: SymId, symbols: &Symbols, target_is_macos: bool) -> (r: String)
        requires
            sym.0 < symbols@.len(),
        ensures
            r@ == (if target_is_macos {
                seq!['_'] + symbols@[sym.0 as int]
            } else {
                symbols@[sym.0 as int]
            }),
    {
        let name = symbols.get(sym);
        let mut out = String::new();
        if target_is_macos {
            out.append("_");
            proof {
                reveal_strlit("_");
            }
        }
        out.append(name);
        out
    }
}

/// Interning only ever appends: a name looked up by the id it got keeps that id in every
/// later table, so `get` gives back what `intern` stored.
pub proof fn law_get_undoes_intern(earlier: Seq<Seq<char>>, later: Seq<Seq<char>>, id: int)
    requires
        later.take(earlier.len() as int) == earlier,
        earlier.len() <= later.len(),
        0 <= id < earlier.len(),
    ensures
        later[id] == earlier[id],
{
    assert(later.take(earlier.len() as int)[id] == later[id]);
}

/// In a table without repeated names a name has exactly one id, so interning it again
/// gives back the id it got the first time.
pub proof fn law_intern_unique_id(t: Seq<Seq<char>>, s: Seq<char>, i: int)
    requires
        t.no_duplicates(),
        0 <= i < t.len(),
        t[i] == s,
    ensures
        forall|j: int| 0 <= j < t.len() && t[j] == s ==> j == i,
{
}

} // verus!
