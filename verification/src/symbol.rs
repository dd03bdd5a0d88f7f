use core::hash::Hasher;
use std::collections::hash_map::DefaultHasher;
use vstd::prelude::*;
use vstd::std_specs::cmp::PartialEqSpec;
use vstd::std_specs::hash::DefaultHasherAdditionalSpecFns;
use vstd::utf8::encode_utf8;

verus! {

/// The cached hash of a name: the standard hasher's digest of the name's
/// UTF-8 bytes followed by the byte `0xff`, reinterpreted as a signed value.
pub open spec fn name_hash(name: Seq<char>) -> i64 {
    DefaultHasher::spec_finish(seq![encode_utf8(name), seq![0xffu8]]) as i64
}

/// Whether two pieces of text hold the same characters.
pub fn same_text(a: &str, b: &str) -> (r: bool)
    ensures
        r == (a@ == b@),
{
    let left = a.to_owned();
    let right = b.to_owned();
    left == right
}

/// An interned name: the unit of identity for types, fields, functions and
/// exports. Its view is the name; the hash is a function of the name.
#[derive(Debug, Hash)]
pub struct Symbol {
    hash: i64,
    name: String,
}

impl View for Symbol {
    type V = Seq<char>;

    closed spec fn view(&self) -> Seq<char> {
        self.name@
    }
}

/// The names of a list of symbols.
pub open spec fn symbol_names(symbols: Seq<Symbol>) -> Seq<Seq<char>> {
    Seq::new(symbols.len(), |i: int| symbols[i]@)
}

impl Symbol {
    #[verifier::type_invariant]
    spec fn hash_follows_name(&self) -> bool {
        self.hash == name_hash(self.name@)
    }

    /// The hash that this symbol carries.
    pub closed spec fn hash_value(&self) -> i64 {
        self.hash
    }

    /// Interns a borrowed name.
    pub fn new(name: &str) -> (sym: Symbol)
        ensures
            sym@ == name@,
            sym.hash_value() == name_hash(name@),
    {
        let hash = Self::hash_name(name);
        Symbol { hash, name: name.to_owned() }
    }

    /// Interns an owned name.
    pub fn from_string(name: String) -> (sym: Symbol)
        ensures
            sym@ == name@,
            sym.hash_value() == name_hash(name@),
    {
        let hash = Self::hash_name(name.as_str());
        Symbol { hash, name }
    }

    /// Computes the hash of a name.
    pub fn hash_name(name: &str) -> (hash: i64)
        ensures
            hash == name_hash(name@),
    {
        let mut hasher = DefaultHasher::new();
        hasher.write(name.as_bytes());
        let end: [u8; 1] = [0xff];
        hasher.write(end.as_slice());
        proof {
            assert(end@ =~= seq![0xffu8]);
            assert(hasher@ =~= seq![encode_utf8(name@), seq![0xffu8]]);
        }
        #[verifier::truncate]
        (hasher.finish() as i64)
    }

    /// The cached hash.
    pub fn hash(&self) -> (hash: i64)
        ensures
            hash == self.hash_value(),
            hash == name_hash(self@),
    {
        proof {
            use_type_invariant(self);
        }
        self.hash
    }

    /// The name.
    pub fn name(&self) -> (name: &str)
        ensures
            name@ == self@,
    {
        self.name.as_str()
    }
}

impl Clone for Symbol {
    fn clone(&self) -> (sym: Symbol)
        ensures
            sym@ == self@,
            sym.hash_value() == self.hash_value(),
    {
        proof {
            use_type_invariant(self);
        }
        Symbol { hash: self.hash, name: self.name.clone() }
    }
}

impl PartialEq for Symbol {
    fn eq(&self, other: &Symbol) -> (r: bool) {
        self.name == other.name
    }
}

impl Eq for Symbol {}

impl vstd::std_specs::cmp::PartialEqSpecImpl for Symbol {
    open spec fn obeys_eq_spec() -> bool {
        true
    }

    open spec fn eq_spec(&self, other: &Symbol) -> bool {
        self@ == other@
    }
}

/// Every symbol's hash is the hash of its name, so two symbols with the
/// same name carry the same hash: a symbol is a function of its name.
pub proof fn lemma_symbol_determined_by_name(a: Symbol, b: Symbol)
    requires
        a.hash_value() == name_hash(a@),
        b.hash_value() == name_hash(b@),
        a@ == b@,
    ensures
        a.hash_value() == b.hash_value(),
        a.eq_spec(&b),
{
}

/// A registry of the names interned through it, in the order in which they
/// first came. Interning is a function of the name alone; the registry only
/// remembers which names it has seen, so that a hash can be traced back.
pub struct SymbolTable {
    symbols: Vec<Symbol>,
}

impl View for SymbolTable {
    type V = Seq<Seq<char>>;

    closed spec fn view(&self) -> Seq<Seq<char>> {
        Seq::new(self.symbols@.len(), |i: int| self.symbols@[i]@)
    }
}

/// The first position at or after `from` whose name hashes to `id`, if any.
pub open spec fn first_with_hash(names: Seq<Seq<char>>, id: i64, from: int) -> Option<int>
    decreases names.len() - from,
{
    if from < 0 || from >= names.len() {
        None
    } else if name_hash(names[from]) == id {
        Some(from)
    } else {
        first_with_hash(names, id, from + 1)
    }
}

impl SymbolTable {
    /// No name is recorded twice.
    pub open spec fn wf(&self) -> bool {
        forall|i: int, j: int| 0 <= i < j < self@.len() ==> self@[i] != self@[j]
    }

    /// An empty registry.
    pub fn new() -> (table: SymbolTable)
        ensures
            table.wf(),
            table@ == Seq::<Seq<char>>::empty(),
    {
        let table = SymbolTable { symbols: Vec::new() };
        assert(table@ =~= Seq::<Seq<char>>::empty());
        table
    }

    /// Interns `name`: the symbol returned depends on the name alone. The
    /// name is recorded if the registry has not seen it before.
    pub fn intern(&mut self, name: &str) -> (sym: Symbol)
        requires
            old(self).wf(),
        ensures
            final(self).wf(),
            sym@ == name@,
            sym.hash_value() == name_hash(name@),
            old(self)@.contains(name@) ==> final(self)@ == old(self)@,
            !old(self)@.contains(name@) ==> final(self)@ == old(self)@.push(name@),
    {
        let sym = Symbol::new(name);
        let mut i: usize = 0;
        while i < self.symbols.len()
            invariant
                i <= self.symbols@.len(),
                *self == *old(self),
                self.wf(),
                sym@ == name@,
                sym.hash_value() == name_hash(name@),
                forall|k: int| 0 <= k < i ==> self@[k] != name@,
            decreases self.symbols@.len() - i,
        {
            if same_text(self.symbols[i].name(), name) {
                assert(self@[i as int] == name@);
                return sym;
            }
            i += 1;
        }
        assert(!old(self)@.contains(name@));
        self.symbols.push(sym.clone());
        assert(self@ =~= old(self)@.push(name@));
        sym
    }

    /// The first recorded name whose hash is `id`, if there is one.
    pub fn get_name(&self, id: i64) -> (name: Option<String>)
        ensures
            match first_with_hash(self@, id, 0) {
                Some(i) => name is Some && name->0@ == self@[i],
                None => name is None,
            },
    {
        let mut i: usize = 0;
        while i < self.symbols.len()
            invariant
                i <= self.symbols@.len(),
                first_with_hash(self@, id, 0) == first_with_hash(self@, id, i as int),
            decreases self.symbols@.len() - i,
        {
            if self.symbols[i].hash() == id {
                return Some(self.symbols[i].name().to_owned());
            }
            i += 1;
        }
        None
    }
}

/// A hash that `get_name` resolves belongs to a recorded name, the earliest
/// one with that hash; a hash that it does not resolve belongs to none.
pub proof fn lemma_first_with_hash(names: Seq<Seq<char>>, id: i64, from: int)
    requires
        0 <= from,
    ensures
        match first_with_hash(names, id, from) {
            Some(i) => from <= i < names.len() && name_hash(names[i]) == id && forall|k: int|
                from <= k < i ==> name_hash(#[trigger] names[k]) != id,
            None => forall|k: int| from <= k < names.len() ==> name_hash(#[trigger] names[k]) != id,
        },
    decreases names.len() - from,
{
    if from < names.len() && name_hash(names[from]) != id {
        lemma_first_with_hash(names, id, from + 1);
    }
}

} // verus!
