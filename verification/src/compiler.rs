//! The binding and label tables of the bytecode emission stage: bindings
//! are collected, allocated in the data section or inlined, and labels
//! are given instruction addresses.
use vstd::prelude::*;
use indexmap::IndexMap;
use crate::semantic::{
    SemanticBindingDef, SemanticBindingDefV, SemanticDeref, SemanticDerefV, SemanticDerefKind, SemanticDerefKindV,
    SemanticImmediateType, SemanticImmediateTypeV, SemanticLiteral, SemanticLiteralV,
    SemanticOperand, SemanticOperandV, SemanticRepr, SemanticReprV, SemanticSymbol,
    SemanticSymbolV, literals_size,
};
use crate::value::{SymbolName, SymbolNameV};
use crate::bytecode::{BytecodeStream, cstr_bytes, varint_bytes};

verus! {

/// Why the binding or the label table could not be built.
#[derive(Debug)]
pub enum CompilerError {
    /// A `.data` section starts right after another.
    DuplicateDataSection,
    /// A binding is defined outside the data section.
    BindingDefInNonDataSection,
    /// A binding is defined twice.
    DuplicateBindingDef(SymbolName),
    /// A binding is used but never defined.
    UndefinedBinding(SymbolName),
    /// A binding with other than one value is dereferenced as a constant.
    ConstDerefWithMultipleValues(SymbolName),
    /// A binding that is not constant is dereferenced as a constant.
    ConstDerefOfNonConstantBinding(SymbolName),
    /// A constant binding is dereferenced as a constant after a dynamic use.
    MixedConstDerefOfConstantBinding(SymbolName),
    /// A constant binding is used dynamically after a constant dereference.
    MixedDynamicDerefOfConstantBinding(SymbolName),
    /// A label is defined twice.
    DuplicateLabel(SymbolName),
    /// A label is used but never defined.
    UndefinedLabel(SymbolName),
}

/// The mathematical model of a [`CompilerError`].
pub enum CompilerErrorV {
    DuplicateDataSection,
    BindingDefInNonDataSection,
    DuplicateBindingDef(SymbolNameV),
    UndefinedBinding(SymbolNameV),
    ConstDerefWithMultipleValues(SymbolNameV),
    ConstDerefOfNonConstantBinding(SymbolNameV),
    MixedConstDerefOfConstantBinding(SymbolNameV),
    MixedDynamicDerefOfConstantBinding(SymbolNameV),
    DuplicateLabel(SymbolNameV),
    UndefinedLabel(SymbolNameV),
}

impl View for CompilerError {
    type V = CompilerErrorV;

    open spec fn view(&self) -> CompilerErrorV {
        match self {
            CompilerError::DuplicateDataSection => CompilerErrorV::DuplicateDataSection,
            CompilerError::BindingDefInNonDataSection => CompilerErrorV::BindingDefInNonDataSection,
            CompilerError::DuplicateBindingDef(s) => CompilerErrorV::DuplicateBindingDef(s@),
            CompilerError::UndefinedBinding(s) => CompilerErrorV::UndefinedBinding(s@),
            CompilerError::ConstDerefWithMultipleValues(s) => CompilerErrorV::ConstDerefWithMultipleValues(s@),
            CompilerError::ConstDerefOfNonConstantBinding(s) => CompilerErrorV::ConstDerefOfNonConstantBinding(s@),
            CompilerError::MixedConstDerefOfConstantBinding(s) => CompilerErrorV::MixedConstDerefOfConstantBinding(s@),
            CompilerError::MixedDynamicDerefOfConstantBinding(s) => CompilerErrorV::MixedDynamicDerefOfConstantBinding(s@),
            CompilerError::DuplicateLabel(s) => CompilerErrorV::DuplicateLabel(s@),
            CompilerError::UndefinedLabel(s) => CompilerErrorV::UndefinedLabel(s@),
        }
    }
}

/// The result of a table-building step.
pub type CompileResult<T> = Result<T, CompilerError>;

// ---------------------------------------------------------------------
// Maps keyed by symbol names.

/// The map a list of pairs stands for: a later pair for a name stands
/// over an earlier one.
pub open spec fn pairs_map<T>(s: Seq<(SymbolName, T)>) -> Map<SymbolNameV, T>
    decreases s.len(),
{
    if s.len() == 0 {
        Map::empty()
    } else {
        pairs_map(s.drop_last()).insert(s.last().0@, s.last().1)
    }
}

/// A map from symbol names, kept as a list of pairs.
#[derive(Debug)]
pub struct SymbolMap<T> {
    pairs: Vec<(SymbolName, T)>,
}

impl<T> View for SymbolMap<T> {
    type V = Map<SymbolNameV, T>;

    closed spec fn view(&self) -> Map<SymbolNameV, T> {
        pairs_map(self.pairs@)
    }
}

proof fn lemma_pairs_map_suffix<T>(s: Seq<(SymbolName, T)>, i: int, k: SymbolNameV)
    requires
        0 <= i <= s.len(),
        forall|j: int| i <= j < s.len() ==> (#[trigger] s[j]).0@ != k,
    ensures
        pairs_map(s).contains_key(k) == pairs_map(s.subrange(0, i)).contains_key(k),
        pairs_map(s).contains_key(k) ==> pairs_map(s)[k] == pairs_map(s.subrange(0, i))[k],
    decreases s.len() - i,
{
    if i == s.len() {
        assert(s.subrange(0, i) =~= s);
    } else {
        lemma_pairs_map_suffix(s, i + 1, k);
        assert(s.subrange(0, i + 1).drop_last() =~= s.subrange(0, i));
        assert(s[i].0@ != k);
    }
}

proof fn lemma_pairs_map_update<T>(s: Seq<(SymbolName, T)>, j: int, key: SymbolName, v: T)
    requires
        0 <= j < s.len(),
        s[j].0@ == key@,
        forall|i: int| j < i < s.len() ==> (#[trigger] s[i]).0@ != key@,
    ensures
        pairs_map(s.update(j, (key, v))) == pairs_map(s).insert(key@, v),
    decreases s.len(),
{
    let u = s.update(j, (key, v));
    if j == s.len() - 1 {
        assert(u.drop_last() =~= s.drop_last());
        assert(pairs_map(u) =~= pairs_map(s).insert(key@, v));
    } else {
        assert(u.drop_last() =~= s.drop_last().update(j, (key, v)));
        assert(s.last() == s[s.len() - 1]);
        lemma_pairs_map_update(s.drop_last(), j, key, v);
        assert(pairs_map(u) =~= pairs_map(s).insert(key@, v));
    }
}

impl<T> SymbolMap<T> {
    /// An empty map.
    pub fn new() -> (r: Self)
        ensures
            r@ == Map::<SymbolNameV, T>::empty(),
    {
        SymbolMap { pairs: Vec::new() }
    }

    /// The value for `key`, if any.
    pub fn get(&self, key: &SymbolName) -> (r: Option<&T>)
        ensures
            match r {
                Some(v) => self@.contains_key(key@) && self@[key@] == *v,
                None => !self@.contains_key(key@),
            },
    {
        let mut i = self.pairs.len();
        while i > 0
            invariant
                i <= self.pairs@.len(),
                forall|j: int| i <= j < self.pairs@.len() ==> (#[trigger] self.pairs@[j]).0@ != key@,
            decreases i,
        {
            i -= 1;
            if self.pairs[i].0.same_as(key) {
                proof {
                    lemma_pairs_map_suffix(self.pairs@, i + 1, key@);
                    assert(self.pairs@.subrange(0, i + 1).drop_last() =~= self.pairs@.subrange(0, i as int));
                }
                return Some(&self.pairs[i].1);
            }
        }
        proof {
            lemma_pairs_map_suffix(self.pairs@, 0, key@);
        }
        None
    }

    /// Sets the value for `key`.
    pub fn insert(&mut self, key: SymbolName, value: T)
        ensures
            final(self)@ == old(self)@.insert(key@, value),
    {
        let mut i = self.pairs.len();
        while i > 0
            invariant
                i <= self.pairs@.len(),
                self.pairs@ == old(self).pairs@,
                forall|j: int| i <= j < self.pairs@.len() ==> (#[trigger] self.pairs@[j]).0@ != key@,
            decreases i,
        {
            i -= 1;
            if self.pairs[i].0.same_as(&key) {
                proof {
                    lemma_pairs_map_update(self.pairs@, i as int, key, value);
                }
                self.pairs.set(i, (key, value));
                return;
            }
        }
        let ghost before = self.pairs@;
        self.pairs.push((key, value));
        assert(self.pairs@.drop_last() =~= before);
    }
}

// ---------------------------------------------------------------------
// Insertion-ordered maps.

#[verifier::external_type_specification]
#[verifier::external_body]
#[verifier::reject_recursive_types(K)]
#[verifier::reject_recursive_types(V)]
#[verifier::reject_recursive_types(S)]
pub struct ExIndexMap<K, V, S>(IndexMap<K, V, S>);

/// The index of the first pair of `s` with key `k`, if any.
pub open spec fn find_key<K, V>(s: Seq<(K, V)>, k: K) -> Option<int>
    decreases s.len(),
{
    if s.len() == 0 {
        None
    } else {
        match find_key(s.drop_last(), k) {
            Some(i) => Some(i),
            None => if s.last().0 == k {
                Some(s.len() - 1)
            } else {
                None
            },
        }
    }
}

/// The pairs after setting the value for `k`: a pair with that key keeps
/// its place and takes the new value; otherwise the pair goes last.
pub open spec fn insert_pair<K, V>(s: Seq<(K, V)>, k: K, v: V) -> Seq<(K, V)> {
    match find_key(s, k) {
        Some(i) => s.update(i, (k, v)),
        None => s.push((k, v)),
    }
}

pub proof fn lemma_find_key<K, V>(s: Seq<(K, V)>, k: K)
    ensures
        match find_key(s, k) {
            Some(i) => 0 <= i < s.len() && s[i].0 == k && forall|j: int| 0 <= j < i ==> (#[trigger] s[j]).0 != k,
            None => forall|j: int| 0 <= j < s.len() ==> (#[trigger] s[j]).0 != k,
        },
    decreases s.len(),
{
    if s.len() > 0 {
        lemma_find_key(s.drop_last(), k);
        assert forall|j: int| 0 <= j < s.len() - 1 implies (#[trigger] s[j]).0 == s.drop_last()[j].0 by {}
    }
}

/// How a binding is stored.
#[derive(Debug, Clone, Copy, PartialEq, Eq, Structural)]
pub enum BindingAllocationType {
    /// The binding's value is written in place of each constant dereference.
    Inline,
    /// The binding is defined outside the sources being compiled.
    Extern,
    /// The binding is allocated at a static offset in the data section.
    Static(usize),
}

/// A binding of the table: its definition and how it is stored.
#[derive(Debug)]
pub struct BindingTableEntry {
    pub def: SemanticBindingDef,
    pub alloc: BindingAllocationType,
}

/// The mathematical model of a [`BindingTableEntry`].
pub struct BindingTableEntryV {
    pub def: SemanticBindingDefV,
    pub alloc: BindingAllocationType,
}

impl View for BindingTableEntry {
    type V = BindingTableEntryV;

    open spec fn view(&self) -> BindingTableEntryV {
        BindingTableEntryV { def: self.def@, alloc: self.alloc }
    }
}

impl BindingTableEntry {
    /// Returns a copy of the entry.
    pub fn duplicate(&self) -> (r: Self)
        ensures
            r@ == self@,
    {
        BindingTableEntry { def: self.def.duplicate(), alloc: self.alloc }
    }
}

/// The entries of a binding table's map, in order, each with its name.
pub uninterp spec fn binding_entries(m: IndexMap<SymbolName, BindingTableEntry>) -> Seq<(SymbolNameV, BindingTableEntryV)>;

/// Calls `IndexMap::new`, which makes an empty map.
#[verifier::external_body]
fn binding_map_new() -> (m: IndexMap<SymbolName, BindingTableEntry>)
    ensures
        binding_entries(m) == Seq::<(SymbolNameV, BindingTableEntryV)>::empty(),
{
    IndexMap::new()
}

/// Calls `IndexMap::contains_key`: whether some entry has the name `k`.
/// Names are compared by `SymbolName`'s derived equality, which compares
/// the bare names and the namespaces as text.
#[verifier::external_body]
fn binding_map_contains(m: &IndexMap<SymbolName, BindingTableEntry>, k: &SymbolName) -> (r: bool)
    ensures
        r == (find_key(binding_entries(*m), k@) is Some),
{
    m.contains_key(k)
}

/// Calls `IndexMap::insert`: an entry with the name `k` keeps its place
/// and takes the new value, else the entry goes last.
#[verifier::external_body]
fn binding_map_insert(m: &mut IndexMap<SymbolName, BindingTableEntry>, k: SymbolName, v: BindingTableEntry)
    ensures
        binding_entries(*final(m)) == insert_pair(binding_entries(*old(m)), k@, v@),
{
    m.insert(k, v);
}

/// Calls `IndexMap::get`: the entry with the name `k`, if any.
#[verifier::external_body]
fn binding_map_get<'a>(m: &'a IndexMap<SymbolName, BindingTableEntry>, k: &SymbolName) -> (r: Option<&'a BindingTableEntry>)
    ensures
        match r {
            Some(e) => find_key(binding_entries(*m), k@) matches Some(i) && e@ == binding_entries(*m)[i].1,
            None => find_key(binding_entries(*m), k@) is None,
        },
{
    m.get(k)
}

/// Calls `IndexMap::len`: the number of entries.
#[verifier::external_body]
fn binding_map_len(m: &IndexMap<SymbolName, BindingTableEntry>) -> (r: usize)
    ensures
        r == binding_entries(*m).len(),
{
    m.len()
}

/// Calls `IndexMap::get_index`: the entry at position `i`, if any.
#[verifier::external_body]
fn binding_map_get_index<'a>(m: &'a IndexMap<SymbolName, BindingTableEntry>, i: usize) -> (r: Option<(&'a SymbolName, &'a BindingTableEntry)>)
    ensures
        match r {
            Some((k, e)) => i < binding_entries(*m).len() && k@ == binding_entries(*m)[i as int].0
                && e@ == binding_entries(*m)[i as int].1,
            None => i >= binding_entries(*m).len(),
        },
{
    m.get_index(i)
}

// ---------------------------------------------------------------------
// The binding table.

/// The table of all bindings: those allocated (in order), those defined
/// so far while reading, the size of the data section so far, and for
/// each constant binding whether it was dereferenced as a constant.
#[derive(Debug)]
pub struct BindingTable {
    entries: IndexMap<SymbolName, BindingTableEntry>,
    tentative_entries: SymbolMap<SemanticBindingDef>,
    counter: usize,
    const_deref_map: SymbolMap<bool>,
}

/// The mathematical model of a [`BindingTable`].
pub struct BindingTableV {
    pub entries: Seq<(SymbolNameV, BindingTableEntryV)>,
    pub tentative: Map<SymbolNameV, SemanticBindingDefV>,
    pub counter: nat,
    pub const_deref: Map<SymbolNameV, bool>,
}

impl View for BindingTable {
    type V = BindingTableV;

    closed spec fn view(&self) -> BindingTableV {
        BindingTableV {
            entries: binding_entries(self.entries),
            tentative: self.tentative_entries@.map_values(|d: SemanticBindingDef| d@),
            counter: self.counter as nat,
            const_deref: self.const_deref_map@,
        }
    }
}

/// A table with no binding.
pub open spec fn empty_binding_table() -> BindingTableV {
    BindingTableV {
        entries: Seq::empty(),
        tentative: Map::empty(),
        counter: 0,
        const_deref: Map::empty(),
    }
}

/// The name `name` in module `m`.
pub open spec fn qualified(name: Seq<char>, m: Seq<char>) -> SymbolNameV {
    SymbolNameV { name, namespace: Some(m) }
}

/// The definition recorded for a binding defined outside the sources:
/// not constant, with no value.
pub open spec fn extern_def(name: SymbolNameV) -> SemanticBindingDefV {
    SemanticBindingDefV { name: name.text(), constant: false, values: Seq::empty() }
}

/// Records an external binding the first time it is met.
pub open spec fn discover_extern(t: BindingTableV, name: SymbolNameV) -> BindingTableV {
    if find_key(t.entries, name) is Some {
        t
    } else {
        BindingTableV {
            tentative: t.tentative.insert(name, extern_def(name)),
            entries: insert_pair(
                t.entries,
                name,
                BindingTableEntryV { def: extern_def(name), alloc: BindingAllocationType::Extern },
            ),
            ..t
        }
    }
}

/// A direct use or dynamic dereference of the binding `s`: refused after
/// a constant dereference of it; a constant binding is marked as used
/// dynamically.
pub open spec fn dynamic_use(t: BindingTableV, s: SymbolNameV) -> (BindingTableV, Option<CompilerErrorV>) {
    if t.const_deref.contains_key(s) && t.const_deref[s] {
        (t, Some(CompilerErrorV::MixedDynamicDerefOfConstantBinding(s)))
    } else if !t.tentative.contains_key(s) {
        (t, Some(CompilerErrorV::UndefinedBinding(s)))
    } else if t.tentative[s].constant {
        (BindingTableV { const_deref: t.const_deref.insert(s, false), ..t }, None)
    } else {
        (t, None)
    }
}

/// A constant dereference of the binding `s`: refused after a dynamic use,
/// and for a binding that is not constant or has other than one value;
/// the binding is marked as dereferenced as a constant.
pub open spec fn const_use(t: BindingTableV, s: SymbolNameV) -> (BindingTableV, Option<CompilerErrorV>) {
    if t.const_deref.contains_key(s) && !t.const_deref[s] {
        (t, Some(CompilerErrorV::MixedConstDerefOfConstantBinding(s)))
    } else if !t.tentative.contains_key(s) {
        (t, Some(CompilerErrorV::UndefinedBinding(s)))
    } else if t.tentative[s].values.len() != 1 {
        (t, Some(CompilerErrorV::ConstDerefWithMultipleValues(s)))
    } else if !t.tentative[s].constant {
        (t, Some(CompilerErrorV::ConstDerefOfNonConstantBinding(s)))
    } else {
        (BindingTableV { const_deref: t.const_deref.insert(s, true), ..t }, None)
    }
}

/// The first pass over one operand of an instruction in module `m`.
pub open spec fn pre_operand(t: BindingTableV, op: SemanticOperandV, m: Seq<char>) -> (BindingTableV, Option<CompilerErrorV>) {
    let t1 = match op.external_symbol() {
        Some((name, _)) => discover_extern(t, name),
        None => t,
    };
    match op {
        SemanticOperandV::Immediate(SemanticImmediateTypeV::Binding(sym, _)) =>
            dynamic_use(t1, sym.name.with_current_module(m)),
        SemanticOperandV::Deref(d) => match d.kind {
            SemanticDerefKindV::Binding(sym) => dynamic_use(t1, sym.name.with_current_module(m)),
            _ => (t1, None),
        },
        SemanticOperandV::Immediate(SemanticImmediateTypeV::ConstDerefBinding(sym)) =>
            const_use(t1, sym.name.with_current_module(m)),
        _ => (t1, None),
    }
}

/// The first pass over operands, in order, stopping at the first error.
pub open spec fn pre_operands(t: BindingTableV, ops: Seq<SemanticOperandV>, m: Seq<char>) -> (BindingTableV, Option<CompilerErrorV>)
    decreases ops.len(),
{
    if ops.len() == 0 {
        (t, None)
    } else {
        let (t1, e) = pre_operands(t, ops.drop_last(), m);
        if e is Some {
            (t1, e)
        } else {
            pre_operand(t1, ops.last(), m)
        }
    }
}

/// The first pass over one line of module `m`: a definition is recorded,
/// and the operands of an instruction are checked.
pub open spec fn pre_line(t: BindingTableV, line: SemanticReprV, m: Seq<char>) -> (BindingTableV, Option<CompilerErrorV>) {
    match line {
        SemanticReprV::BindingDef(def) => {
            let s = qualified(def.name, m);
            if find_key(t.entries, s) is Some {
                (t, Some(CompilerErrorV::DuplicateBindingDef(s)))
            } else {
                (BindingTableV { tentative: t.tentative.insert(s, def), ..t }, None)
            }
        },
        SemanticReprV::Instruction(ins) => pre_operands(t, ins.operands, m),
        _ => (t, None),
    }
}

/// The first pass over the lines of module `m`, stopping at the first
/// error: the table reached, and the error if any.
pub open spec fn pre_lines(t: BindingTableV, lines: Seq<SemanticReprV>, m: Seq<char>) -> (BindingTableV, Option<CompilerErrorV>)
    decreases lines.len(),
{
    if lines.len() == 0 {
        (t, None)
    } else {
        let (t1, e) = pre_lines(t, lines.drop_last(), m);
        if e is Some {
            (t1, e)
        } else {
            pre_line(t1, lines.last(), m)
        }
    }
}

proof fn lemma_map_values_insert(m: Map<SymbolNameV, SemanticBindingDef>, k: SymbolNameV, d: SemanticBindingDef)
    ensures
        m.insert(k, d).map_values(|x: SemanticBindingDef| x@) == m.map_values(|x: SemanticBindingDef| x@).insert(k, d@),
{
    assert(m.insert(k, d).map_values(|x: SemanticBindingDef| x@) =~= m.map_values(|x: SemanticBindingDef| x@).insert(k, d@));
}

impl BindingTable {
    /// An empty table.
    pub fn new() -> (r: Self)
        ensures
            r@ == empty_binding_table(),
    {
        let r = BindingTable {
            entries: binding_map_new(),
            tentative_entries: SymbolMap::new(),
            counter: 0,
            const_deref_map: SymbolMap::new(),
        };
        assert(r@.tentative =~= Map::<SymbolNameV, SemanticBindingDefV>::empty());
        r
    }

    /// The definition recorded so far for `symbol`, if any.
    fn get_tentative_entry(&self, symbol: &SymbolName) -> (r: Option<&SemanticBindingDef>)
        ensures
            match r {
                Some(d) => self@.tentative.contains_key(symbol@) && self@.tentative[symbol@] == d@,
                None => !self@.tentative.contains_key(symbol@),
            },
    {
        self.tentative_entries.get(symbol)
    }

    /// The definition recorded so far for `symbol`, or an error naming it.
    fn get_tentative_entry_or_err(&self, symbol: &SymbolName) -> (r: CompileResult<&SemanticBindingDef>)
        ensures
            match r {
                Ok(d) => self@.tentative.contains_key(symbol@) && self@.tentative[symbol@] == d@,
                Err(e) => !self@.tentative.contains_key(symbol@) && e@ == CompilerErrorV::UndefinedBinding(symbol@),
            },
    {
        match self.get_tentative_entry(symbol) {
            Some(d) => Ok(d),
            None => Err(CompilerError::UndefinedBinding(symbol.duplicate())),
        }
    }

    /// Records an external binding the first time it is met.
    fn discover_extern(&mut self, name: &SymbolName)
        ensures
            final(self)@ == discover_extern(old(self)@, name@),
    {
        if !binding_map_contains(&self.entries, name) {
            let def = SemanticBindingDef {
                name: name.to_string(),
                constant: false,
                values: Vec::new(),
            };
            assert(def@ == extern_def(name@)) by {
                assert(def@.values =~= Seq::<SemanticLiteralV>::empty());
            }
            let ghost tv = self.tentative_entries@;
            let copy = def.duplicate();
            let ghost cv = copy;
            self.tentative_entries.insert(name.duplicate(), copy);
            proof {
                lemma_map_values_insert(tv, name@, cv);
            }
            binding_map_insert(&mut self.entries, name.duplicate(), BindingTableEntry {
                def,
                alloc: BindingAllocationType::Extern,
            });
        }
    }

    /// A direct use or dynamic dereference of the binding `symbol`.
    fn dynamic_use(&mut self, symbol: SymbolName) -> (r: CompileResult<()>)
        ensures
            final(self)@ == dynamic_use(old(self)@, symbol@).0,
            match r {
                Ok(()) => dynamic_use(old(self)@, symbol@).1 is None,
                Err(e) => dynamic_use(old(self)@, symbol@).1 == Some(e@),
            },
    {
        if let Some(is_const) = self.const_deref_map.get(&symbol) {
            if *is_const {
                return Err(CompilerError::MixedDynamicDerefOfConstantBinding(symbol));
            }
        }
        let constant = match self.get_tentative_entry_or_err(&symbol) {
            Ok(entry) => entry.constant,
            Err(e) => {
                return Err(e);
            },
        };
        if constant {
            self.const_deref_map.insert(symbol, false);
        }
        Ok(())
    }

    /// A constant dereference of the binding `symbol`.
    fn const_use(&mut self, symbol: SymbolName) -> (r: CompileResult<()>)
        ensures
            final(self)@ == const_use(old(self)@, symbol@).0,
            match r {
                Ok(()) => const_use(old(self)@, symbol@).1 is None,
                Err(e) => const_use(old(self)@, symbol@).1 == Some(e@),
            },
    {
        if let Some(is_const) = self.const_deref_map.get(&symbol) {
            if !*is_const {
                return Err(CompilerError::MixedConstDerefOfConstantBinding(symbol));
            }
        }
        let (count, constant) = match self.get_tentative_entry_or_err(&symbol) {
            Ok(entry) => (entry.values.len(), entry.constant),
            Err(e) => {
                return Err(e);
            },
        };
        if count != 1 {
            return Err(CompilerError::ConstDerefWithMultipleValues(symbol));
        }
        if !constant {
            return Err(CompilerError::ConstDerefOfNonConstantBinding(symbol));
        }
        self.const_deref_map.insert(symbol, true);
        Ok(())
    }

    /// The first pass over one operand of an instruction in `module_name`.
    fn preprocess_operand(&mut self, operand: &SemanticOperand, module_name: &str) -> (r: CompileResult<()>)
        ensures
            final(self)@ == pre_operand(old(self)@, operand@, module_name@).0,
            match r {
                Ok(()) => pre_operand(old(self)@, operand@, module_name@).1 is None,
                Err(e) => pre_operand(old(self)@, operand@, module_name@).1 == Some(e@),
            },
    {
        if let Some(external_symbol) = operand.get_external_symbol() {
            self.discover_extern(&external_symbol.name);
        }
        match operand {
            SemanticOperand::Immediate(SemanticImmediateType::Binding(symbol, _)) => {
                self.dynamic_use(symbol.name.with_current_module(module_name))
            },
            SemanticOperand::Deref(deref) => match &deref.kind {
                SemanticDerefKind::Binding(symbol) => self.dynamic_use(symbol.name.with_current_module(module_name)),
                _ => Ok(()),
            },
            SemanticOperand::Immediate(SemanticImmediateType::ConstDerefBinding(symbol)) => {
                self.const_use(symbol.name.with_current_module(module_name))
            },
            _ => Ok(()),
        }
    }

    /// The first pass over the lines of module `module_name`: records each
    /// definition, discovers external bindings, and checks how each
    /// binding is used. On an error the table stays as it was when the
    /// error was met.
    fn preprocess_bindings(&mut self, source: &[SemanticRepr], module_name: &str) -> (r: CompileResult<()>)
        ensures
            final(self)@ == pre_lines(old(self)@, crate::semantic::reprs_view(source@), module_name@).0,
            match r {
                Ok(()) => pre_lines(old(self)@, crate::semantic::reprs_view(source@), module_name@).1 is None,
                Err(e) => pre_lines(old(self)@, crate::semantic::reprs_view(source@), module_name@).1 == Some(e@),
            },
    {
        let ghost lines = crate::semantic::reprs_view(source@);
        let ghost m = module_name@;
        let ghost t0 = self@;
        for i in 0..source.len()
            invariant
                lines == crate::semantic::reprs_view(source@),
                lines.len() == source@.len(),
                m == module_name@,
                t0 == old(self)@,
                pre_lines(t0, lines.subrange(0, i as int), m) == (self@, None::<CompilerErrorV>),
        {
            proof {
                assert(lines.subrange(0, i + 1).drop_last() =~= lines.subrange(0, i as int));
                assert(lines[i as int] == source@[i as int]@);
            }
            match &source[i] {
                SemanticRepr::BindingDef(def) => {
                    let symbol = SymbolName::new(def.name.as_str(), Some(module_name));
                    if binding_map_contains(&self.entries, &symbol) {
                        proof {
                            assert(symbol@ == qualified(def@.name, m));
                            assert(pre_lines(t0, lines.subrange(0, i + 1), m) == pre_line(self@, lines[i as int], m));
                            lemma_pre_lines_stop(t0, lines, i as int + 1, m);
                        }
                        return Err(CompilerError::DuplicateBindingDef(symbol));
                    }
                    let ghost tv = self.tentative_entries@;
                    let copy = def.duplicate();
                    let ghost cv = copy;
                    self.tentative_entries.insert(symbol, copy);
                    proof {
                        lemma_map_values_insert(tv, qualified(def@.name, m), cv);
                    }
                },
                SemanticRepr::Instruction(instruction) => {
                    let ghost ops = crate::semantic::operands_view(instruction.operands@);
                    let ghost tl = self@;
                    for j in 0..instruction.operands.len()
                        invariant
                            ops == crate::semantic::operands_view(instruction.operands@),
                            m == module_name@,
                            pre_operands(tl, ops.subrange(0, j as int), m) == (self@, None::<CompilerErrorV>),
                            lines.len() == source@.len(),
                            lines == crate::semantic::reprs_view(source@),
                            t0 == old(self)@,
                            i < lines.len(),
                            lines[i as int] == SemanticReprV::Instruction(instruction@),
                            pre_lines(t0, lines.subrange(0, i as int), m) == (tl, None::<CompilerErrorV>),
                            lines.subrange(0, i + 1).drop_last() == lines.subrange(0, i as int),
                    {
                        proof {
                            assert(ops.subrange(0, j + 1).drop_last() =~= ops.subrange(0, j as int));
                            assert(ops[j as int] == instruction.operands@[j as int]@);
                        }
                        let ghost before = self@;
                        let r = self.preprocess_operand(&instruction.operands[j], module_name);
                        if let Err(e) = r {
                            proof {
                                assert(ops.subrange(0, j + 1).last() == ops[j as int]);
                                assert(pre_operands(tl, ops.subrange(0, j + 1), m) == pre_operand(before, ops[j as int], m));
                                lemma_pre_operands_stop(tl, ops, j as int + 1, m);
                                assert(pre_line(tl, lines[i as int], m) == pre_operands(tl, ops, m));
                                assert(lines.subrange(0, i + 1).last() == lines[i as int]);
                                assert(pre_lines(t0, lines.subrange(0, i + 1), m) == pre_line(tl, lines[i as int], m));
                                lemma_pre_lines_stop(t0, lines, i as int + 1, m);
                            }
                            return Err(e);
                        }
                    }
                    assert(ops.subrange(0, ops.len() as int) =~= ops);
                },
                _ => {},
            }
        }
        assert(lines.subrange(0, lines.len() as int) =~= lines);
        Ok(())
    }
}

proof fn lemma_pre_operands_stop(t: BindingTableV, ops: Seq<SemanticOperandV>, n: int, m: Seq<char>)
    requires
        0 <= n <= ops.len(),
        pre_operands(t, ops.subrange(0, n), m).1 is Some,
    ensures
        pre_operands(t, ops, m) == pre_operands(t, ops.subrange(0, n), m),
    decreases ops.len() - n,
{
    if n == ops.len() {
        assert(ops.subrange(0, n) =~= ops);
    } else {
        assert(ops.subrange(0, n + 1).drop_last() =~= ops.subrange(0, n));
        lemma_pre_operands_stop(t, ops, n + 1, m);
    }
}

proof fn lemma_pre_lines_stop(t: BindingTableV, lines: Seq<SemanticReprV>, n: int, m: Seq<char>)
    requires
        0 <= n <= lines.len(),
        pre_lines(t, lines.subrange(0, n), m).1 is Some,
    ensures
        pre_lines(t, lines, m) == pre_lines(t, lines.subrange(0, n), m),
    decreases lines.len() - n,
{
    if n == lines.len() {
        assert(lines.subrange(0, n) =~= lines);
    } else {
        assert(lines.subrange(0, n + 1).drop_last() =~= lines.subrange(0, n));
        lemma_pre_lines_stop(t, lines, n + 1, m);
    }
}

// ---------------------------------------------------------------------
// Allocation.

/// Whether the binding `s` is inlined: it was dereferenced as a constant.
pub open spec fn spec_can_inline(t: BindingTableV, s: SymbolNameV) -> bool {
    t.const_deref.contains_key(s) && t.const_deref[s]
}

/// The second pass over one line of module `m`, with `open` telling
/// whether a data section is open: each definition of the data section
/// is allocated, inline or at the next static offset. Returns the table,
/// whether a data section is open after the line, and the error if any.
pub open spec fn append_line(t: BindingTableV, open: bool, line: SemanticReprV, m: Seq<char>) -> (BindingTableV, bool, Option<CompilerErrorV>) {
    match line {
        SemanticReprV::SpecialSection(label) => if label == crate::parser::data_section_label() {
            if open {
                (t, open, Some(CompilerErrorV::DuplicateDataSection))
            } else {
                (t, true, None)
            }
        } else {
            (t, false, None)
        },
        SemanticReprV::BindingDef(def) => if !open {
            (t, open, Some(CompilerErrorV::BindingDefInNonDataSection))
        } else {
            let s = qualified(def.name, m);
            if find_key(t.entries, s) is Some {
                (t, open, Some(CompilerErrorV::DuplicateBindingDef(s)))
            } else if !spec_can_inline(t, s) {
                (BindingTableV {
                    counter: t.counter + literals_size(def.values),
                    entries: insert_pair(
                        t.entries,
                        s,
                        BindingTableEntryV { def, alloc: BindingAllocationType::Static(t.counter as usize) },
                    ),
                    ..t
                }, open, None)
            } else {
                (BindingTableV {
                    entries: insert_pair(t.entries, s, BindingTableEntryV { def, alloc: BindingAllocationType::Inline }),
                    ..t
                }, open, None)
            }
        },
        _ => (t, false, None),
    }
}

/// The second pass over lines, from the state `(t, open)`, stopping at the
/// first error.
pub open spec fn append_from(t: BindingTableV, open: bool, lines: Seq<SemanticReprV>, m: Seq<char>) -> (BindingTableV, bool, Option<CompilerErrorV>)
    decreases lines.len(),
{
    if lines.len() == 0 {
        (t, open, None)
    } else {
        let (t1, o1, e) = append_from(t, open, lines.drop_last(), m);
        if e is Some {
            (t1, o1, e)
        } else {
            append_line(t1, o1, lines.last(), m)
        }
    }
}

/// The second pass over the lines of module `m`: no data section is open
/// at its start.
pub open spec fn append_lines(t: BindingTableV, lines: Seq<SemanticReprV>, m: Seq<char>) -> (BindingTableV, Option<CompilerErrorV>) {
    let (t1, _, e) = append_from(t, false, lines, m);
    (t1, e)
}

/// The total packed size of the definitions among `lines`.
pub open spec fn defs_size(lines: Seq<SemanticReprV>) -> nat
    decreases lines.len(),
{
    if lines.len() == 0 {
        0
    } else {
        defs_size(lines.drop_last()) + match lines.last() {
            SemanticReprV::BindingDef(def) => literals_size(def.values),
            _ => 0,
        }
    }
}

proof fn lemma_defs_size_prefix(lines: Seq<SemanticReprV>, i: int)
    requires
        0 <= i <= lines.len(),
    ensures
        defs_size(lines.subrange(0, i)) <= defs_size(lines),
    decreases lines.len() - i,
{
    if i < lines.len() {
        lemma_defs_size_prefix(lines, i + 1);
        assert(lines.subrange(0, i + 1).drop_last() =~= lines.subrange(0, i));
    } else {
        assert(lines.subrange(0, i) =~= lines);
    }
}

proof fn lemma_append_from_stop(t: BindingTableV, open: bool, lines: Seq<SemanticReprV>, n: int, m: Seq<char>)
    requires
        0 <= n <= lines.len(),
        append_from(t, open, lines.subrange(0, n), m).2 is Some,
    ensures
        append_from(t, open, lines, m) == append_from(t, open, lines.subrange(0, n), m),
    decreases lines.len() - n,
{
    if n == lines.len() {
        assert(lines.subrange(0, n) =~= lines);
    } else {
        assert(lines.subrange(0, n + 1).drop_last() =~= lines.subrange(0, n));
        lemma_append_from_stop(t, open, lines, n + 1, m);
    }
}

/// The counter only grows by the sizes of definitions read.
proof fn lemma_append_counter(t: BindingTableV, open: bool, lines: Seq<SemanticReprV>, m: Seq<char>)
    ensures
        t.counter <= append_from(t, open, lines, m).0.counter <= t.counter + defs_size(lines),
    decreases lines.len(),
{
    if lines.len() > 0 {
        lemma_append_counter(t, open, lines.drop_last(), m);
    }
}

impl BindingTable {
    /// Returns whether the binding `symbol` is inlined: it was
    /// dereferenced as a constant.
    fn can_inline(&self, symbol: &SymbolName) -> (r: bool)
        ensures
            r == spec_can_inline(self@, symbol@),
    {
        if let Some(b) = self.const_deref_map.get(symbol) {
            if *b {
                return true;
            }
        }
        false
    }

    /// The second pass over the lines of module `module_name`: allocates
    /// each definition of a data section, inline when it is dereferenced
    /// as a constant and otherwise at the next offset of the data section.
    /// On an error the table stays as it was when the error was met.
    fn append_bindings(&mut self, source: &[SemanticRepr], module_name: &str) -> (r: CompileResult<()>)
        requires
            old(self)@.counter + defs_size(crate::semantic::reprs_view(source@)) <= usize::MAX,
        ensures
            final(self)@ == append_lines(old(self)@, crate::semantic::reprs_view(source@), module_name@).0,
            match r {
                Ok(()) => append_lines(old(self)@, crate::semantic::reprs_view(source@), module_name@).1 is None,
                Err(e) => append_lines(old(self)@, crate::semantic::reprs_view(source@), module_name@).1 == Some(e@),
            },
    {
        let ghost lines = crate::semantic::reprs_view(source@);
        let ghost m = module_name@;
        let ghost t0 = self@;
        let mut section_open = false;
        for i in 0..source.len()
            invariant
                lines == crate::semantic::reprs_view(source@),
                lines.len() == source@.len(),
                m == module_name@,
                t0 == old(self)@,
                t0.counter + defs_size(lines) <= usize::MAX,
                append_from(t0, false, lines.subrange(0, i as int), m) == (self@, section_open, None::<CompilerErrorV>),
        {
            proof {
                assert(lines.subrange(0, i + 1).drop_last() =~= lines.subrange(0, i as int));
                assert(lines.subrange(0, i + 1).last() == lines[i as int]);
                assert(lines[i as int] == source@[i as int]@);
                lemma_append_counter(t0, false, lines.subrange(0, i as int), m);
                lemma_defs_size_prefix(lines, i + 1);
                assert(defs_size(lines.subrange(0, i + 1)) == defs_size(lines.subrange(0, i as int)) + match lines[i as int] {
                    SemanticReprV::BindingDef(def) => literals_size(def.values),
                    _ => 0,
                });
            }
            match &source[i] {
                SemanticRepr::SpecialSection(label) => {
                    let v = crate::text::chars_of(label.as_str());
                    let is_data = crate::text::same_chars(v.as_slice(), &['.', 'd', 'a', 't', 'a']);
                    proof {
                        let lit: &[char] = &['.', 'd', 'a', 't', 'a'];
                        assert(lit@ =~= crate::parser::data_section_label());
                    }
                    if is_data {
                        if section_open {
                            proof {
                                lemma_append_from_stop(t0, false, lines, i as int + 1, m);
                            }
                            return Err(CompilerError::DuplicateDataSection);
                        }
                        section_open = true;
                    } else {
                        section_open = false;
                    }
                },
                SemanticRepr::BindingDef(def) => {
                    if !section_open {
                        proof {
                            lemma_append_from_stop(t0, false, lines, i as int + 1, m);
                        }
                        return Err(CompilerError::BindingDefInNonDataSection);
                    }
                    let symbol = SymbolName::new(def.name.as_str(), Some(module_name));
                    assert(symbol@ == qualified(def@.name, m));
                    if binding_map_contains(&self.entries, &symbol) {
                        proof {
                            lemma_append_from_stop(t0, false, lines, i as int + 1, m);
                        }
                        return Err(CompilerError::DuplicateBindingDef(symbol));
                    }
                    let alloc = if !self.can_inline(&symbol) {
                        let value = self.counter;
                        self.counter = self.counter + def.total_size();
                        BindingAllocationType::Static(value)
                    } else {
                        BindingAllocationType::Inline
                    };
                    binding_map_insert(&mut self.entries, symbol, BindingTableEntry { def: def.duplicate(), alloc });
                },
                _ => {
                    section_open = false;
                },
            }
        }
        assert(lines.subrange(0, lines.len() as int) =~= lines);
        Ok(())
    }
}

// ---------------------------------------------------------------------
// Lookups and inlining.

/// The entry of the table for the binding `s`, if any.
pub open spec fn spec_entry(t: BindingTableV, s: SymbolNameV) -> Option<BindingTableEntryV> {
    match find_key(t.entries, s) {
        Some(i) => Some(t.entries[i].1),
        None => None,
    }
}

/// The virtual address `a` moved by `offset`, as a 64-bit word.
pub open spec fn address_word(a: usize, offset: i64) -> i64 {
    (a as int + offset as int) as i64
}

/// An operand of module `m` with its binding reference lowered: a constant
/// dereference is replaced by the binding's first value; a reference to a
/// binding allocated in the data section by its virtual address (moved by
/// the operand's offset), and a dereference of such a binding by a
/// dereference of that address. A reference to an external binding is
/// kept as it is: its address is given by the engine that loads the
/// program, through the binding's external record in the table. A dynamic
/// reference to a binding that is only inlined is refused as such, and a
/// reference to a binding the table does not have as undefined. Any other
/// operand is kept.
pub open spec fn lower_operand(t: BindingTableV, op: SemanticOperandV, m: Seq<char>) -> Result<SemanticOperandV, CompilerErrorV> {
    match op {
        SemanticOperandV::Immediate(SemanticImmediateTypeV::ConstDerefBinding(sym)) => {
            let s = sym.name.with_current_module(m);
            match spec_entry(t, s) {
                Some(e) => Ok(SemanticOperandV::Immediate(SemanticImmediateTypeV::Literal(e.def.values[0]))),
                None => Err(CompilerErrorV::UndefinedBinding(s)),
            }
        },
        SemanticOperandV::Immediate(SemanticImmediateTypeV::Binding(sym, offset)) => {
            let s = sym.name.with_current_module(m);
            match spec_entry(t, s) {
                Some(e) => match e.alloc {
                    BindingAllocationType::Static(a) => Ok(SemanticOperandV::Immediate(
                        SemanticImmediateTypeV::Literal(SemanticLiteralV::UntypedInteger(address_word(a, offset))),
                    )),
                    BindingAllocationType::Extern => Ok(op),
                    BindingAllocationType::Inline => Err(CompilerErrorV::MixedDynamicDerefOfConstantBinding(s)),
                },
                None => Err(CompilerErrorV::UndefinedBinding(s)),
            }
        },
        SemanticOperandV::Deref(d) => match d.kind {
            SemanticDerefKindV::Binding(sym) => {
                let s = sym.name.with_current_module(m);
                match spec_entry(t, s) {
                    Some(e) => match e.alloc {
                        BindingAllocationType::Static(a) => Ok(SemanticOperandV::Deref(
                            SemanticDerefV { kind: SemanticDerefKindV::Address(a as u64), offset: d.offset },
                        )),
                        BindingAllocationType::Extern => Ok(op),
                        BindingAllocationType::Inline => Err(CompilerErrorV::MixedDynamicDerefOfConstantBinding(s)),
                    },
                    None => Err(CompilerErrorV::UndefinedBinding(s)),
                }
            },
            _ => Ok(op),
        },
        _ => Ok(op),
    }
}

/// The operands with each binding reference lowered, in order; from
/// the first that fails on, operands are kept as they are.
pub open spec fn lower_ops(t: BindingTableV, ops: Seq<SemanticOperandV>, m: Seq<char>) -> (Seq<SemanticOperandV>, Option<CompilerErrorV>)
    decreases ops.len(),
{
    if ops.len() == 0 {
        (Seq::empty(), None)
    } else {
        let (front, e) = lower_ops(t, ops.drop_last(), m);
        if e is Some {
            (front.push(ops.last()), e)
        } else {
            match lower_operand(t, ops.last(), m) {
                Ok(o) => (front.push(o), None),
                Err(e2) => (front.push(ops.last()), Some(e2)),
            }
        }
    }
}

/// A line with the binding references of an instruction lowered.
pub open spec fn lower_line(t: BindingTableV, line: SemanticReprV, m: Seq<char>) -> (SemanticReprV, Option<CompilerErrorV>) {
    match line {
        SemanticReprV::Instruction(ins) => {
            let (ops, e) = lower_ops(t, ins.operands, m);
            (SemanticReprV::Instruction(crate::semantic::SemanticInstructionV { opcode: ins.opcode, operands: ops }), e)
        },
        _ => (line, None),
    }
}

/// The lines of module `m` with binding references lowered, in order;
/// the line where an error is met is lowered up to its failing operand,
/// and the lines after it are kept as they are.
pub open spec fn lower_lines(t: BindingTableV, lines: Seq<SemanticReprV>, m: Seq<char>) -> (Seq<SemanticReprV>, Option<CompilerErrorV>)
    decreases lines.len(),
{
    if lines.len() == 0 {
        (Seq::empty(), None)
    } else {
        let (front, e) = lower_lines(t, lines.drop_last(), m);
        if e is Some {
            (front.push(lines.last()), e)
        } else {
            let (l, e2) = lower_line(t, lines.last(), m);
            (front.push(l), e2)
        }
    }
}

/// Whether inlining the operand `op` of module `m` finds a value: a
/// constant dereference names no binding of the table, or one with a
/// value.
pub open spec fn operand_lower_safe(t: BindingTableV, op: SemanticOperandV, m: Seq<char>) -> bool {
    match op {
        SemanticOperandV::Immediate(SemanticImmediateTypeV::ConstDerefBinding(sym)) =>
            match spec_entry(t, sym.name.with_current_module(m)) {
                Some(e) => e.def.values.len() > 0,
                None => true,
            },
        _ => true,
    }
}

/// Whether inlining each of the operands `ops` finds a value.
pub open spec fn ops_lower_safe(t: BindingTableV, ops: Seq<SemanticOperandV>, m: Seq<char>) -> bool {
    forall|j: int| 0 <= j < ops.len() ==> operand_lower_safe(t, #[trigger] ops[j], m)
}

/// Whether inlining the operands of the line finds values.
pub open spec fn line_lower_safe(t: BindingTableV, line: SemanticReprV, m: Seq<char>) -> bool {
    match line {
        SemanticReprV::Instruction(ins) => ops_lower_safe(t, ins.operands, m),
        _ => true,
    }
}

/// Whether inlining the constant dereferences of `lines` finds values.
pub open spec fn lower_safe(t: BindingTableV, lines: Seq<SemanticReprV>, m: Seq<char>) -> bool {
    forall|i: int| 0 <= i < lines.len() ==> line_lower_safe(t, #[trigger] lines[i], m)
}

impl BindingTable {
    /// The definition of the binding `symbol`, if the table has it.
    pub fn get_entry(&self, symbol: &SymbolName) -> (r: Option<&SemanticBindingDef>)
        ensures
            match r {
                Some(d) => spec_entry(self@, symbol@) matches Some(e) && d@ == e.def,
                None => spec_entry(self@, symbol@) is None,
            },
    {
        match binding_map_get(&self.entries, symbol) {
            Some(c) => Some(&c.def),
            None => None,
        }
    }

    /// The definition of the binding `symbol`, or an error naming it.
    pub fn get_entry_or_err(&self, symbol: &SymbolName) -> (r: CompileResult<&SemanticBindingDef>)
        ensures
            match r {
                Ok(d) => spec_entry(self@, symbol@) matches Some(e) && d@ == e.def,
                Err(err) => spec_entry(self@, symbol@) is None && err@ == CompilerErrorV::UndefinedBinding(symbol@),
            },
    {
        match self.get_entry(symbol) {
            Some(d) => Ok(d),
            None => Err(CompilerError::UndefinedBinding(symbol.duplicate())),
        }
    }

    /// How the binding `symbol` is allocated, if the table has it.
    fn binding_alloc(&self, symbol: &SymbolName) -> (r: Option<BindingAllocationType>)
        ensures
            r == match spec_entry(self@, symbol@) {
                Some(e) => Some(e.alloc),
                None => None::<BindingAllocationType>,
            },
    {
        match binding_map_get(&self.entries, symbol) {
            Some(c) => Some(c.alloc),
            None => None,
        }
    }

    /// The data section offset of the binding `symbol`: `None` when the
    /// table does not have it, `Some(None)` when it is not allocated
    /// statically.
    pub fn get_offset(&self, symbol: &SymbolName) -> (r: Option<Option<usize>>)
        ensures
            r == match spec_entry(self@, symbol@) {
                Some(e) => Some(match e.alloc {
                    BindingAllocationType::Static(offset) => Some(offset),
                    _ => None,
                }),
                None => None,
            },
    {
        match binding_map_get(&self.entries, symbol) {
            Some(c) => Some(match c.alloc {
                BindingAllocationType::Static(offset) => Some(offset),
                _ => None,
            }),
            None => None,
        }
    }

    /// The data section offset of the binding `symbol` (`None` when it is
    /// not allocated statically), or an error when the table does not
    /// have it.
    pub fn get_offset_or_err(&self, symbol: &SymbolName) -> (r: CompileResult<Option<usize>>)
        ensures
            match r {
                Ok(o) => spec_entry(self@, symbol@) matches Some(e) && o == match e.alloc {
                    BindingAllocationType::Static(offset) => Some(offset),
                    _ => None,
                },
                Err(err) => spec_entry(self@, symbol@) is None && err@ == CompilerErrorV::UndefinedBinding(symbol@),
            },
    {
        match self.get_offset(symbol) {
            Some(o) => Ok(o),
            None => Err(CompilerError::UndefinedBinding(symbol.duplicate())),
        }
    }

    /// Lowers the binding references of the instructions of module
    /// `module_name`: a constant dereference is replaced by the first
    /// value of its binding, a reference to a binding of the data section
    /// by its address, and a dereference of one by a dereference of its
    /// address. On an error the lines stay as they were when it was met.
    fn lower_bindings(&mut self, source: &mut Vec<SemanticRepr>, module_name: &str) -> (r: CompileResult<()>)
        requires
            lower_safe(old(self)@, crate::semantic::reprs_view(old(source)@), module_name@),
        ensures
            final(self)@ == old(self)@,
            crate::semantic::reprs_view(final(source)@) == lower_lines(old(self)@, crate::semantic::reprs_view(old(source)@), module_name@).0,
            match r {
                Ok(()) => lower_lines(old(self)@, crate::semantic::reprs_view(old(source)@), module_name@).1 is None,
                Err(e) => lower_lines(old(self)@, crate::semantic::reprs_view(old(source)@), module_name@).1 == Some(e@),
            },
    {
        let ghost orig = crate::semantic::reprs_view(source@);
        let ghost m = module_name@;
        let ghost t = self@;
        let n = source.len();
        assert(orig.subrange(0, 0) =~= Seq::<SemanticReprV>::empty());
        assert(crate::semantic::reprs_view(source@) =~= lower_lines(t, orig.subrange(0, 0), m).0 + orig.subrange(0, n as int));
        for i in 0..n
            invariant
                n == source@.len(),
                orig.len() == n,
                orig == crate::semantic::reprs_view(old(source)@),
                m == module_name@,
                t == self@,
                t == old(self)@,
                lower_safe(t, orig, m),
                lower_lines(t, orig.subrange(0, i as int), m).1 is None,
                crate::semantic::reprs_view(source@) == lower_lines(t, orig.subrange(0, i as int), m).0 + orig.subrange(i as int, n as int),
        {
            let ghost front = lower_lines(t, orig.subrange(0, i as int), m).0;
            proof {
                assert(orig.subrange(0, i + 1).drop_last() =~= orig.subrange(0, i as int));
                assert(orig.subrange(0, i + 1).last() == orig[i as int]);
                lemma_lower_lines_len(t, orig.subrange(0, i as int), m);
                assert(crate::semantic::reprs_view(source@)[i as int] == orig[i as int]);
                assert(source@[i as int]@ == orig[i as int]);
            }
            let mut replaced: Option<SemanticRepr> = None;
            let mut err: Option<CompilerError> = None;
            if let SemanticRepr::Instruction(ins) = &source[i] {
                let ghost ops = crate::semantic::operands_view(ins.operands@);
                let mut new_ops: Vec<SemanticOperand> = Vec::new();
                proof {
                    assert(ops.subrange(0, 0) =~= Seq::<SemanticOperandV>::empty());
                    assert(crate::semantic::operands_view(new_ops@) =~= Seq::<SemanticOperandV>::empty());
                }
                for j in 0..ins.operands.len()
                    invariant
                        ops == crate::semantic::operands_view(ins.operands@),
                        m == module_name@,
                        t == self@,
                        forall|k: int| 0 <= k < ops.len() ==> operand_lower_safe(t, #[trigger] ops[k], m),
                        crate::semantic::operands_view(new_ops@) == lower_ops(t, ops.subrange(0, j as int), m).0,
                        match err {
                            Some(e) => lower_ops(t, ops.subrange(0, j as int), m).1 == Some(e@),
                            None => lower_ops(t, ops.subrange(0, j as int), m).1 is None,
                        },
                {
                    proof {
                        assert(ops.subrange(0, j + 1).drop_last() =~= ops.subrange(0, j as int));
                        assert(ops.subrange(0, j + 1).last() == ops[j as int]);
                        assert(ops[j as int] == ins.operands@[j as int]@);
                        assert(operand_lower_safe(t, ops[j as int], m));
                    }
                    let ghost before = crate::semantic::operands_view(new_ops@);
                    let op = &ins.operands[j];
                    let mut done = false;
                    if err.is_none() {
                        if let SemanticOperand::Immediate(SemanticImmediateType::ConstDerefBinding(symbol)) = op {
                            let name = symbol.name.with_current_module(module_name);
                            match self.get_entry_or_err(&name) {
                                Ok(def) => {
                                    new_ops.push(SemanticOperand::Immediate(SemanticImmediateType::Literal(def.values[0].duplicate())));
                                },
                                Err(e) => {
                                    err = Some(e);
                                    new_ops.push(op.duplicate());
                                },
                            }
                            done = true;
                        }
                    }
                    if err.is_none() && !done {
                        if let SemanticOperand::Immediate(SemanticImmediateType::Binding(symbol, offset)) = op {
                            let name = symbol.name.with_current_module(module_name);
                            match self.binding_alloc(&name) {
                                Some(BindingAllocationType::Static(a)) => {
                                    let word = (a as i128 + *offset as i128) as i64;
                                    new_ops.push(SemanticOperand::Immediate(
                                        SemanticImmediateType::Literal(SemanticLiteral::UntypedInteger(word)),
                                    ));
                                },
                                Some(BindingAllocationType::Extern) => {
                                    new_ops.push(op.duplicate());
                                },
                                Some(BindingAllocationType::Inline) => {
                                    err = Some(CompilerError::MixedDynamicDerefOfConstantBinding(name));
                                    new_ops.push(op.duplicate());
                                },
                                None => {
                                    err = Some(CompilerError::UndefinedBinding(name));
                                    new_ops.push(op.duplicate());
                                },
                            }
                            done = true;
                        } else if let SemanticOperand::Deref(d) = op {
                            if let SemanticDerefKind::Binding(symbol) = &d.kind {
                                let name = symbol.name.with_current_module(module_name);
                                match self.binding_alloc(&name) {
                                    Some(BindingAllocationType::Static(a)) => {
                                        new_ops.push(SemanticOperand::Deref(
                                            SemanticDeref { kind: SemanticDerefKind::Address(a as u64), offset: d.offset },
                                        ));
                                    },
                                    Some(BindingAllocationType::Extern) => {
                                        new_ops.push(op.duplicate());
                                    },
                                    Some(BindingAllocationType::Inline) => {
                                        err = Some(CompilerError::MixedDynamicDerefOfConstantBinding(name));
                                        new_ops.push(op.duplicate());
                                    },
                                    None => {
                                        err = Some(CompilerError::UndefinedBinding(name));
                                        new_ops.push(op.duplicate());
                                    },
                                }
                                done = true;
                            }
                        }
                    }
                    if !done {
                        new_ops.push(op.duplicate());
                    }
                    proof {
                        assert(crate::semantic::operands_view(new_ops@) =~= before.push(crate::semantic::operands_view(new_ops@).last()));
                        assert(crate::semantic::operands_view(new_ops@) == lower_ops(t, ops.subrange(0, j + 1), m).0);
                    }
                }
                assert(ops.subrange(0, ops.len() as int) =~= ops);
                replaced = Some(SemanticRepr::Instruction(crate::semantic::SemanticInstruction {
                    opcode: ins.opcode,
                    operands: new_ops,
                }));
            }
            if let Some(line) = replaced {
                let ghost lv = line@;
                let ghost prev = crate::semantic::reprs_view(source@);
                source.set(i, line);
                proof {
                    assert(crate::semantic::reprs_view(source@) =~= prev.update(i as int, lv));
                    assert(lv == lower_line(t, orig[i as int], m).0);
                    assert(lower_lines(t, orig.subrange(0, i + 1), m).0 == front.push(lv));
                    assert(crate::semantic::reprs_view(source@) =~= lower_lines(t, orig.subrange(0, i + 1), m).0 + orig.subrange(i + 1, n as int));
                }
                if let Some(e) = err {
                    proof {
                        lemma_lower_lines_stop(t, orig, i as int + 1, m);
                        assert(orig.subrange(i + 1, n as int) =~= orig.subrange(i + 1, n as int));
                    }
                    return Err(e);
                }
            } else {
                proof {
                    assert(!(orig[i as int] is Instruction));
                    assert(lower_line(t, orig[i as int], m) == (orig[i as int], None::<CompilerErrorV>));
                    assert(lower_lines(t, orig.subrange(0, i + 1), m).0 == front.push(orig[i as int]));
                    assert(crate::semantic::reprs_view(source@) =~= lower_lines(t, orig.subrange(0, i + 1), m).0 + orig.subrange(i + 1, n as int));
                }
            }
        }
        proof {
            assert(orig.subrange(0, n as int) =~= orig);
            assert(orig.subrange(n as int, n as int) =~= Seq::<SemanticReprV>::empty());
            assert(crate::semantic::reprs_view(source@) =~= lower_lines(t, orig, m).0);
        }
        Ok(())
    }
}

proof fn lemma_lower_lines_len(t: BindingTableV, lines: Seq<SemanticReprV>, m: Seq<char>)
    ensures
        lower_lines(t, lines, m).0.len() == lines.len(),
    decreases lines.len(),
{
    if lines.len() > 0 {
        lemma_lower_lines_len(t, lines.drop_last(), m);
    }
}

/// After an error, the remaining lines are kept as they are.
proof fn lemma_lower_lines_stop(t: BindingTableV, lines: Seq<SemanticReprV>, n: int, m: Seq<char>)
    requires
        0 <= n <= lines.len(),
        lower_lines(t, lines.subrange(0, n), m).1 is Some,
    ensures
        lower_lines(t, lines, m).1 == lower_lines(t, lines.subrange(0, n), m).1,
        lower_lines(t, lines, m).0 == lower_lines(t, lines.subrange(0, n), m).0 + lines.subrange(n, lines.len() as int),
    decreases lines.len() - n,
{
    if n == lines.len() {
        assert(lines.subrange(0, n) =~= lines);
        assert(lower_lines(t, lines, m).0 + lines.subrange(n, n) =~= lower_lines(t, lines, m).0);
    } else {
        assert(lines.subrange(0, n + 1).drop_last() =~= lines.subrange(0, n));
        assert(lines.subrange(0, n + 1).last() == lines[n]);
        lemma_lower_lines_stop(t, lines, n + 1, m);
        assert(lower_lines(t, lines.subrange(0, n), m).0.push(lines[n]) + lines.subrange(n + 1, lines.len() as int)
            =~= lower_lines(t, lines.subrange(0, n), m).0 + lines.subrange(n, lines.len() as int));
    }
}

// ---------------------------------------------------------------------
// All modules.

/// The modules of a program, in order: each module's name and its lines.
pub uninterp spec fn module_sources(m: IndexMap<String, Vec<SemanticRepr>>) -> Seq<(Seq<char>, Seq<SemanticReprV>)>;

/// Calls `IndexMap::len`: the number of modules.
#[verifier::external_body]
fn module_map_len(m: &IndexMap<String, Vec<SemanticRepr>>) -> (r: usize)
    ensures
        r == module_sources(*m).len(),
{
    m.len()
}

/// Calls `IndexMap::get_index`: the module at position `i`, if any.
#[verifier::external_body]
fn module_map_get_index<'a>(m: &'a IndexMap<String, Vec<SemanticRepr>>, i: usize) -> (r: Option<(&'a String, &'a Vec<SemanticRepr>)>)
    ensures
        match r {
            Some((k, v)) => i < module_sources(*m).len() && k@ == module_sources(*m)[i as int].0
                && crate::semantic::reprs_view(v@) == module_sources(*m)[i as int].1,
            None => i >= module_sources(*m).len(),
        },
{
    m.get_index(i)
}

/// Calls `IndexMut::index_mut` of `IndexMap` to put `lines` in place of
/// the lines of the module at position `i`, and returns those lines.
#[verifier::external_body]
fn module_map_replace(m: &mut IndexMap<String, Vec<SemanticRepr>>, i: usize, lines: Vec<SemanticRepr>) -> (r: Vec<SemanticRepr>)
    requires
        i < module_sources(*old(m)).len(),
    ensures
        crate::semantic::reprs_view(r@) == module_sources(*old(m))[i as int].1,
        module_sources(*final(m)) == module_sources(*old(m)).update(
            i as int,
            (module_sources(*old(m))[i as int].0, crate::semantic::reprs_view(lines@)),
        ),
{
    core::mem::replace(&mut m[i], lines)
}

/// The first pass over the modules in order, stopping at the first error.
pub open spec fn pre_modules(t: BindingTableV, mods: Seq<(Seq<char>, Seq<SemanticReprV>)>) -> (BindingTableV, Option<CompilerErrorV>)
    decreases mods.len(),
{
    if mods.len() == 0 {
        (t, None)
    } else {
        let (t1, e) = pre_modules(t, mods.drop_last());
        if e is Some {
            (t1, e)
        } else {
            pre_lines(t1, mods.last().1, mods.last().0)
        }
    }
}

/// The second pass over the modules in order, stopping at the first error.
pub open spec fn append_modules(t: BindingTableV, mods: Seq<(Seq<char>, Seq<SemanticReprV>)>) -> (BindingTableV, Option<CompilerErrorV>)
    decreases mods.len(),
{
    if mods.len() == 0 {
        (t, None)
    } else {
        let (t1, e) = append_modules(t, mods.drop_last());
        if e is Some {
            (t1, e)
        } else {
            append_lines(t1, mods.last().1, mods.last().0)
        }
    }
}

/// The modules with binding references lowered, in order; from the
/// module where an error is met on, modules are as `lower_lines` leaves
/// them.
pub open spec fn lower_modules(t: BindingTableV, mods: Seq<(Seq<char>, Seq<SemanticReprV>)>) -> (Seq<(Seq<char>, Seq<SemanticReprV>)>, Option<CompilerErrorV>)
    decreases mods.len(),
{
    if mods.len() == 0 {
        (Seq::empty(), None)
    } else {
        let (front, e) = lower_modules(t, mods.drop_last());
        if e is Some {
            (front.push(mods.last()), e)
        } else {
            let (lines, e2) = lower_lines(t, mods.last().1, mods.last().0);
            (front.push((mods.last().0, lines)), e2)
        }
    }
}

/// The total packed size of the definitions of all modules.
pub open spec fn modules_defs_size(mods: Seq<(Seq<char>, Seq<SemanticReprV>)>) -> nat
    decreases mods.len(),
{
    if mods.len() == 0 {
        0
    } else {
        modules_defs_size(mods.drop_last()) + defs_size(mods.last().1)
    }
}

/// Whether inlining the constant dereferences of every module finds values.
pub open spec fn modules_lower_safe(t: BindingTableV, mods: Seq<(Seq<char>, Seq<SemanticReprV>)>) -> bool {
    forall|k: int| 0 <= k < mods.len() ==> lower_safe(t, (#[trigger] mods[k]).1, mods[k].0)
}

/// The table the first two passes build from the modules, or the first
/// error they meet.
pub open spec fn spec_binding_table(mods: Seq<(Seq<char>, Seq<SemanticReprV>)>) -> Result<BindingTableV, CompilerErrorV> {
    let (t1, e1) = pre_modules(empty_binding_table(), mods);
    match e1 {
        Some(e) => Err(e),
        None => {
            let (t2, e2) = append_modules(t1, mods);
            match e2 {
                Some(e) => Err(e),
                None => Ok(t2),
            }
        },
    }
}

proof fn lemma_modules_prefix_step<A>(mods: Seq<A>, k: int)
    requires
        0 <= k < mods.len(),
    ensures
        mods.subrange(0, k + 1).drop_last() == mods.subrange(0, k),
        mods.subrange(0, k + 1).last() == mods[k],
{
    assert(mods.subrange(0, k + 1).drop_last() =~= mods.subrange(0, k));
}

proof fn lemma_modules_defs_size_prefix(mods: Seq<(Seq<char>, Seq<SemanticReprV>)>, k: int)
    requires
        0 <= k <= mods.len(),
    ensures
        modules_defs_size(mods.subrange(0, k)) <= modules_defs_size(mods),
    decreases mods.len() - k,
{
    if k < mods.len() {
        lemma_modules_defs_size_prefix(mods, k + 1);
        lemma_modules_prefix_step(mods, k);
    } else {
        assert(mods.subrange(0, k) =~= mods);
    }
}

proof fn lemma_pre_modules_stop(t: BindingTableV, mods: Seq<(Seq<char>, Seq<SemanticReprV>)>, n: int)
    requires
        0 <= n <= mods.len(),
        pre_modules(t, mods.subrange(0, n)).1 is Some,
    ensures
        pre_modules(t, mods) == pre_modules(t, mods.subrange(0, n)),
    decreases mods.len() - n,
{
    if n == mods.len() {
        assert(mods.subrange(0, n) =~= mods);
    } else {
        lemma_modules_prefix_step(mods, n);
        lemma_pre_modules_stop(t, mods, n + 1);
    }
}

proof fn lemma_append_modules_stop(t: BindingTableV, mods: Seq<(Seq<char>, Seq<SemanticReprV>)>, n: int)
    requires
        0 <= n <= mods.len(),
        append_modules(t, mods.subrange(0, n)).1 is Some,
    ensures
        append_modules(t, mods) == append_modules(t, mods.subrange(0, n)),
    decreases mods.len() - n,
{
    if n == mods.len() {
        assert(mods.subrange(0, n) =~= mods);
    } else {
        lemma_modules_prefix_step(mods, n);
        lemma_append_modules_stop(t, mods, n + 1);
    }
}

proof fn lemma_lower_modules_len(t: BindingTableV, mods: Seq<(Seq<char>, Seq<SemanticReprV>)>)
    ensures
        lower_modules(t, mods).0.len() == mods.len(),
    decreases mods.len(),
{
    if mods.len() > 0 {
        lemma_lower_modules_len(t, mods.drop_last());
    }
}

proof fn lemma_lower_modules_stop(t: BindingTableV, mods: Seq<(Seq<char>, Seq<SemanticReprV>)>, n: int)
    requires
        0 <= n <= mods.len(),
        lower_modules(t, mods.subrange(0, n)).1 is Some,
    ensures
        lower_modules(t, mods).1 == lower_modules(t, mods.subrange(0, n)).1,
        lower_modules(t, mods).0 == lower_modules(t, mods.subrange(0, n)).0 + mods.subrange(n, mods.len() as int),
    decreases mods.len() - n,
{
    if n == mods.len() {
        assert(mods.subrange(0, n) =~= mods);
        assert(lower_modules(t, mods).0 + mods.subrange(n, n) =~= lower_modules(t, mods).0);
    } else {
        lemma_modules_prefix_step(mods, n);
        lemma_lower_modules_stop(t, mods, n + 1);
        assert(lower_modules(t, mods.subrange(0, n)).0.push(mods[n]) + mods.subrange(n + 1, mods.len() as int)
            =~= lower_modules(t, mods.subrange(0, n)).0 + mods.subrange(n, mods.len() as int));
    }
}

proof fn lemma_pre_operands_counter(t: BindingTableV, ops: Seq<SemanticOperandV>, m: Seq<char>)
    ensures
        pre_operands(t, ops, m).0.counter == t.counter,
    decreases ops.len(),
{
    if ops.len() > 0 {
        lemma_pre_operands_counter(t, ops.drop_last(), m);
    }
}

proof fn lemma_pre_lines_counter(t: BindingTableV, lines: Seq<SemanticReprV>, m: Seq<char>)
    ensures
        pre_lines(t, lines, m).0.counter == t.counter,
    decreases lines.len(),
{
    if lines.len() > 0 {
        lemma_pre_lines_counter(t, lines.drop_last(), m);
        let t1 = pre_lines(t, lines.drop_last(), m).0;
        if let SemanticReprV::Instruction(ins) = lines.last() {
            lemma_pre_operands_counter(t1, ins.operands, m);
        }
    }
}

/// The first pass allocates nothing.
proof fn lemma_pre_modules_counter(t: BindingTableV, mods: Seq<(Seq<char>, Seq<SemanticReprV>)>)
    ensures
        pre_modules(t, mods).0.counter == t.counter,
    decreases mods.len(),
{
    if mods.len() > 0 {
        lemma_pre_modules_counter(t, mods.drop_last());
        lemma_pre_lines_counter(pre_modules(t, mods.drop_last()).0, mods.last().1, mods.last().0);
    }
}

impl BindingTable {
    /// Builds the binding table of all modules in three passes: the first
    /// records definitions and checks uses, the second allocates the
    /// definitions of the data sections, and the third replaces the binding
    /// references in the modules' lines by addresses and inlined values. On an error in the third pass
    /// the lines stay as they were when it was met.
    pub fn parse_and_lower(lines: &mut IndexMap<String, Vec<SemanticRepr>>) -> (r: CompileResult<Self>)
        requires
            modules_defs_size(module_sources(*old(lines))) <= usize::MAX,
        ensures
            match spec_binding_table(module_sources(*old(lines))) {
                Err(e) => r matches Err(err) && err@ == e && module_sources(*final(lines)) == module_sources(*old(lines)),
                Ok(t) => {
                    &&& module_sources(*final(lines)) == lower_modules(t, module_sources(*old(lines))).0
                    &&& match lower_modules(t, module_sources(*old(lines))).1 {
                        Some(e) => r matches Err(err) && err@ == e,
                        None => r matches Ok(table) && table@ == t,
                    }
                },
            },
    {
        let ghost mods = module_sources(*lines);
        let mut ret = Self::new();
        let n = module_map_len(lines);
        for k in 0..n
            invariant
                n == mods.len(),
                mods == module_sources(*lines),
                pre_modules(empty_binding_table(), mods.subrange(0, k as int)) == (ret@, None::<CompilerErrorV>),
        {
            proof {
                lemma_modules_prefix_step(mods, k as int);
            }
            match module_map_get_index(lines, k) {
                Some((module_name, source)) => {
                    if let Err(e) = ret.preprocess_bindings(source.as_slice(), module_name.as_str()) {
                        proof {
                            lemma_pre_modules_stop(empty_binding_table(), mods, k + 1);
                        }
                        return Err(e);
                    }
                },
                None => {},
            }
        }
        assert(mods.subrange(0, n as int) =~= mods);
        let ghost t1 = ret@;
        proof {
            lemma_pre_modules_counter(empty_binding_table(), mods);
            assert(mods.subrange(0, 0) =~= Seq::<(Seq<char>, Seq<SemanticReprV>)>::empty());
        }
        for k in 0..n
            invariant
                n == mods.len(),
                mods == module_sources(*lines),
                pre_modules(empty_binding_table(), mods) == (t1, None::<CompilerErrorV>),
                modules_defs_size(mods) <= usize::MAX,
                append_modules(t1, mods.subrange(0, k as int)) == (ret@, None::<CompilerErrorV>),
                ret@.counter <= modules_defs_size(mods.subrange(0, k as int)),
        {
            proof {
                lemma_modules_prefix_step(mods, k as int);
                lemma_modules_defs_size_prefix(mods, k + 1);
            }
            match module_map_get_index(lines, k) {
                Some((module_name, source)) => {
                    proof {
                        lemma_append_counter(ret@, false, mods[k as int].1, mods[k as int].0);
                    }
                    if let Err(e) = ret.append_bindings(source.as_slice(), module_name.as_str()) {
                        proof {
                            lemma_append_modules_stop(t1, mods, k + 1);
                        }
                        return Err(e);
                    }
                },
                None => {},
            }
        }
        assert(mods.subrange(0, n as int) =~= mods);
        let ghost t2 = ret@;
        assert(spec_binding_table(mods) == Ok::<BindingTableV, CompilerErrorV>(t2));
        proof {
            lemma_inlining_finds_values(mods);
        }
        for k in 0..n
            invariant
                n == mods.len(),
                module_sources(*lines).len() == n,
                mods == module_sources(*old(lines)),
                t2 == ret@,
                spec_binding_table(mods) == Ok::<BindingTableV, CompilerErrorV>(t2),
                modules_lower_safe(t2, mods),
                lower_modules(t2, mods.subrange(0, k as int)).1 is None,
                module_sources(*lines) == lower_modules(t2, mods.subrange(0, k as int)).0 + mods.subrange(k as int, n as int),
        {
            proof {
                lemma_modules_prefix_step(mods, k as int);
                lemma_lower_modules_len(t2, mods.subrange(0, k as int));
                assert(module_sources(*lines)[k as int] == mods[k as int]);
                assert(lower_safe(t2, mods[k as int].1, mods[k as int].0));
            }
            let ghost front = lower_modules(t2, mods.subrange(0, k as int)).0;
            let name = match module_map_get_index(lines, k) {
                Some((module_name, _)) => module_name.clone(),
                None => String::new(),
            };
            let mut source = module_map_replace(lines, k, Vec::new());
            let r = ret.lower_bindings(&mut source, name.as_str());
            let ghost lowered = crate::semantic::reprs_view(source@);
            module_map_replace(lines, k, source);
            proof {
                assert(module_sources(*lines) =~= lower_modules(t2, mods.subrange(0, k + 1)).0 + mods.subrange(k + 1, n as int));
            }
            if let Err(e) = r {
                proof {
                    lemma_lower_modules_stop(t2, mods, k + 1);
                }
                return Err(e);
            }
        }
        proof {
            assert(mods.subrange(0, n as int) =~= mods);
            assert(module_sources(*lines) =~= lower_modules(t2, mods).0);
        }
        Ok(ret)
    }
}

// ---------------------------------------------------------------------
// Writing the binding table.

/// Whether two strings hold the same text.
fn same_text(a: &String, b: &String) -> (r: bool)
    ensures
        r == (a@ == b@),
{
    let x = crate::text::chars_of(a.as_str());
    let y = crate::text::chars_of(b.as_str());
    crate::text::same_chars(x.as_slice(), y.as_slice())
}

/// Whether every name of `entries` has a namespace.
pub open spec fn all_qualified<E>(entries: Seq<(SymbolNameV, E)>) -> bool {
    forall|k: int| 0 <= k < entries.len() ==> (#[trigger] entries[k]).0.namespace is Some
}

/// The flag byte of a binding record: bit 0 for a constant binding, bit 1
/// for an external one, bit 2 for the last record, bit 3 when a namespace
/// follows.
pub open spec fn binding_flag(e: BindingTableEntryV, last: bool, new_ns: bool) -> u8 {
    (if e.def.constant { 1u8 } else { 0u8 }) | (if e.alloc is Extern { 2u8 } else { 0u8 }) | (if last {
        4u8
    } else {
        0u8
    }) | (if new_ns { 8u8 } else { 0u8 })
}

/// The record of the binding at position `i`: its flag, its position, its
/// namespace when it differs from the one written before, its bare name,
/// and its offset when it is allocated statically.
pub open spec fn binding_record(i: nat, name: SymbolNameV, e: BindingTableEntryV, last: bool, new_ns: bool) -> Seq<u8> {
    seq![binding_flag(e, last, new_ns)] + varint_bytes(i) + (if new_ns {
        cstr_bytes(name.namespace->0)
    } else {
        Seq::empty()
    }) + cstr_bytes(name.name) + match e.alloc {
        BindingAllocationType::Static(offset) => varint_bytes(offset as nat),
        _ => Seq::empty(),
    }
}

/// The flag byte that opens every binding record says what the binding is:
/// bit 0 is set exactly when its definition is constant, whatever its
/// allocation; bit 1 exactly when it is external; bit 2 exactly on the last
/// record; bit 3 exactly when the record names a new namespace; no other
/// bit is set.
pub proof fn lemma_binding_record_flag(i: nat, name: SymbolNameV, e: BindingTableEntryV, last: bool, new_ns: bool)
    ensures
        binding_record(i, name, e, last, new_ns).len() > 0,
        (binding_record(i, name, e, last, new_ns)[0] & 1u8 == 1u8) == e.def.constant,
        (binding_record(i, name, e, last, new_ns)[0] & 2u8 == 2u8) == (e.alloc is Extern),
        (binding_record(i, name, e, last, new_ns)[0] & 4u8 == 4u8) == last,
        (binding_record(i, name, e, last, new_ns)[0] & 8u8 == 8u8) == new_ns,
        binding_record(i, name, e, last, new_ns)[0] < 16,
{
    let f = binding_record(i, name, e, last, new_ns)[0];
    assert(f == binding_flag(e, last, new_ns));
    let c = e.def.constant;
    let x = e.alloc is Extern;
    let a: u8 = if c { 1u8 } else { 0u8 };
    let b: u8 = if x { 2u8 } else { 0u8 };
    let d: u8 = if last { 4u8 } else { 0u8 };
    let g: u8 = if new_ns { 8u8 } else { 0u8 };
    assert(f == a | b | d | g);
    assert((a == 1u8 || a == 0u8) && (b == 2u8 || b == 0u8) && (d == 4u8 || d == 0u8) && (g == 8u8 || g == 0u8) ==> {
        &&& ((a | b | d | g) & 1u8 == 1u8) == (a == 1u8)
        &&& ((a | b | d | g) & 2u8 == 2u8) == (b == 2u8)
        &&& ((a | b | d | g) & 4u8 == 4u8) == (d == 4u8)
        &&& ((a | b | d | g) & 8u8 == 8u8) == (g == 8u8)
        &&& (a | b | d | g) < 16
    }) by (bit_vector);
}

/// The records of the first `n` bindings, and the namespace written last.
pub open spec fn binding_records(entries: Seq<(SymbolNameV, BindingTableEntryV)>, n: nat) -> (Seq<u8>, Option<Seq<char>>)
    decreases n,
{
    if n == 0 || n > entries.len() {
        (Seq::empty(), None)
    } else {
        let (prev, cur) = binding_records(entries, (n - 1) as nat);
        let name = entries[n - 1].0;
        let new_ns = cur != name.namespace;
        (prev + binding_record((n - 1) as nat, name, entries[n - 1].1, n == entries.len(), new_ns), name.namespace)
    }
}

/// The size of the data section: the packed sizes of the statically
/// allocated bindings among the first `n`.
pub open spec fn static_size(entries: Seq<(SymbolNameV, BindingTableEntryV)>, n: nat) -> nat
    decreases n,
{
    if n == 0 || n > entries.len() {
        0
    } else {
        static_size(entries, (n - 1) as nat) + if entries[n - 1].1.alloc is Static {
            literals_size(entries[n - 1].1.def.values)
        } else {
            0
        }
    }
}

/// The data section: the values of the statically allocated bindings
/// among the first `n`, packed in order, the floating point parts of the
/// `k`-th binding given by `chunks[k]`.
pub open spec fn data_bytes(entries: Seq<(SymbolNameV, BindingTableEntryV)>, chunks: Seq<Seq<Seq<u8>>>, n: nat) -> Seq<u8>
    decreases n,
{
    if n == 0 || n > entries.len() {
        Seq::empty()
    } else {
        data_bytes(entries, chunks, (n - 1) as nat) + if entries[n - 1].1.alloc is Static {
            crate::semantic::literals_packed(entries[n - 1].1.def.values, chunks[n - 1])
        } else {
            Seq::empty()
        }
    }
}

/// Whether `chunks` may stand for the floating point parts of the values
/// of the statically allocated bindings.
pub open spec fn table_chunks_valid<F: Fn(&String, bool) -> Vec<u8>>(
    encode: F,
    entries: Seq<(SymbolNameV, BindingTableEntryV)>,
    chunks: Seq<Seq<Seq<u8>>>,
) -> bool {
    &&& chunks.len() == entries.len()
    &&& forall|k: int| 0 <= k < entries.len() && (#[trigger] entries[k]).1.alloc is Static
        ==> crate::semantic::chunks_valid(encode, entries[k].1.def.values, chunks[k])
}

/// The bytes a binding table is written as: the records, the size of the
/// data section, and the data section.
pub open spec fn binding_table_bytes(entries: Seq<(SymbolNameV, BindingTableEntryV)>, chunks: Seq<Seq<Seq<u8>>>) -> Seq<u8> {
    binding_records(entries, entries.len()).0 + varint_bytes(static_size(entries, entries.len()))
        + data_bytes(entries, chunks, entries.len())
}

proof fn lemma_static_size_prefix(entries: Seq<(SymbolNameV, BindingTableEntryV)>, i: nat, n: nat)
    requires
        i <= n <= entries.len(),
    ensures
        static_size(entries, i) <= static_size(entries, n),
    decreases n - i,
{
    if i < n {
        lemma_static_size_prefix(entries, i, (n - 1) as nat);
    }
}

/// Writes the record of the binding `symbol` at position `i`.
fn write_binding_record(
    stream: &mut BytecodeStream,
    i: usize,
    symbol: &SymbolName,
    namespace: &String,
    entry: &BindingTableEntry,
    last: bool,
    write_namespace: bool,
)
    requires
        symbol@.namespace == Some(namespace@),
    ensures
        final(stream)@ == old(stream)@ + binding_record(i as nat, symbol@, entry@, last, write_namespace),
{
    let is_extern = match entry.alloc {
        BindingAllocationType::Extern => true,
        _ => false,
    };
    let flag: u8 = (if entry.def.constant { 1u8 } else { 0u8 }) | (if is_extern { 2u8 } else { 0u8 }) | (if last {
        4u8
    } else {
        0u8
    }) | (if write_namespace { 8u8 } else { 0u8 });
    stream.write_u8(flag);
    stream.write_varint64(i as u64);
    if write_namespace {
        stream.write_cstr(namespace.as_str());
    }
    stream.write_cstr(symbol.name.as_str());
    if let BindingAllocationType::Static(offset) = entry.alloc {
        stream.write_varint64(offset as u64);
    }
    assert(stream@ =~= old(stream)@ + binding_record(i as nat, symbol@, entry@, last, write_namespace));
}

impl BindingTable {
    /// Writes the table: a record per binding, in order, then the size of
    /// the data section and its contents, the values of the statically
    /// allocated bindings. `encode_float` gives the bytes of a floating
    /// point value from its text.
    pub fn serialize<F: Fn(&String, bool) -> Vec<u8>>(&self, stream: &mut BytecodeStream, encode_float: &F)
        requires
            forall|t: &String, d: bool| encode_float.requires((t, d)),
            all_qualified(self@.entries),
            static_size(self@.entries, self@.entries.len()) <= usize::MAX,
        ensures
            exists|chunks: Seq<Seq<Seq<u8>>>| table_chunks_valid(*encode_float, self@.entries, chunks)
                && final(stream)@ == old(stream)@ + binding_table_bytes(self@.entries, chunks),
    {
        let ghost entries = self@.entries;
        let n = binding_map_len(&self.entries);
        let mut current_namespace: Option<&String> = None;
        for i in 0..n
            invariant
                n == entries.len(),
                entries == binding_entries(self.entries),
                all_qualified(entries),
                stream@ == old(stream)@ + binding_records(entries, i as nat).0,
                match current_namespace {
                    Some(c) => binding_records(entries, i as nat).1 == Some(c@),
                    None => binding_records(entries, i as nat).1 is None,
                },
        {
            let (symbol, entry) = match binding_map_get_index(&self.entries, i) {
                Some(pair) => pair,
                None => {
                    return;
                },
            };
            let namespace = match &symbol.namespace {
                Some(ns) => ns,
                None => {
                    assert(entries[i as int].0.namespace is Some);
                    return;
                },
            };
            let write_namespace = match current_namespace {
                Some(c) => !same_text(c, namespace),
                None => true,
            };
            if write_namespace {
                current_namespace = Some(namespace);
            }
            proof {
                assert(write_namespace == (binding_records(entries, i as nat).1 != entries[i as int].0.namespace));
            }
            write_binding_record(stream, i, symbol, namespace, entry, i == n - 1, write_namespace);
            proof {
                assert(binding_records(entries, (i + 1) as nat).1 == Some(namespace@));
                assert(stream@ =~= old(stream)@ + binding_records(entries, (i + 1) as nat).0);
            }
        }
        let mut size: usize = 0;
        for i in 0..n
            invariant
                n == entries.len(),
                entries == binding_entries(self.entries),
                static_size(entries, entries.len()) <= usize::MAX,
                size == static_size(entries, i as nat),
        {
            proof {
                lemma_static_size_prefix(entries, (i + 1) as nat, n as nat);
            }
            if let Some((_, entry)) = binding_map_get_index(&self.entries, i) {
                if let BindingAllocationType::Static(_) = entry.alloc {
                    size = size + entry.def.total_size();
                }
            }
        }
        stream.write_varint64(size as u64);
        let ghost head = stream@;
        let ghost mut chunks: Seq<Seq<Seq<u8>>> = Seq::empty();
        for i in 0..n
            invariant
                n == entries.len(),
                entries == binding_entries(self.entries),
                forall|t: &String, d: bool| encode_float.requires((t, d)),
                chunks.len() == i,
                forall|k: int| 0 <= k < i && (#[trigger] entries[k]).1.alloc is Static
                    ==> crate::semantic::chunks_valid(*encode_float, entries[k].1.def.values, chunks[k]),
                stream@ == head + data_bytes(entries, chunks, i as nat),
        {
            let ghost before = stream@;
            let ghost mut chunk: Seq<Seq<u8>> = Seq::empty();
            if let Some((_, entry)) = binding_map_get_index(&self.entries, i) {
                if let BindingAllocationType::Static(_) = entry.alloc {
                    entry.def.serialize(stream, encode_float);
                    proof {
                        chunk = choose|c: Seq<Seq<u8>>| crate::semantic::chunks_valid(*encode_float, entry.def@.values, c)
                            && stream@ == before + crate::semantic::literals_packed(entry.def@.values, c);
                    }
                }
            }
            proof {
                let next = chunks.push(chunk);
                assert forall|k: int| 0 <= k < i + 1 && (#[trigger] entries[k]).1.alloc is Static
                    implies crate::semantic::chunks_valid(*encode_float, entries[k].1.def.values, next[k]) by {
                    if k < i {
                        assert(next[k] == chunks[k]);
                    }
                }
                assert(data_bytes(entries, next, i as nat) == data_bytes(entries, chunks, i as nat)) by {
                    lemma_data_bytes_prefix(entries, chunks, next, i as nat);
                }
                assert(stream@ =~= head + data_bytes(entries, next, (i + 1) as nat));
                chunks = next;
            }
        }
        assert(table_chunks_valid(*encode_float, entries, chunks));
    }
}

/// The data section of the first `n` bindings depends only on the first
/// `n` chunks.
proof fn lemma_data_bytes_prefix(
    entries: Seq<(SymbolNameV, BindingTableEntryV)>,
    a: Seq<Seq<Seq<u8>>>,
    b: Seq<Seq<Seq<u8>>>,
    n: nat,
)
    requires
        n <= a.len(),
        n <= b.len(),
        forall|k: int| 0 <= k < n ==> a[k] == b[k],
    ensures
        data_bytes(entries, a, n) == data_bytes(entries, b, n),
    decreases n,
{
    if n > 0 {
        lemma_data_bytes_prefix(entries, a, b, (n - 1) as nat);
    }
}

// ---------------------------------------------------------------------
// The label table.

/// A label of the table: its symbol and its address, the index of the
/// instruction it stands before.
#[derive(Debug)]
pub struct LabelTableEntry {
    pub symbol: SemanticSymbol,
    pub addr: u64,
}

/// The mathematical model of a [`LabelTableEntry`].
pub struct LabelTableEntryV {
    pub symbol: SemanticSymbolV,
    pub addr: u64,
}

impl View for LabelTableEntry {
    type V = LabelTableEntryV;

    open spec fn view(&self) -> LabelTableEntryV {
        LabelTableEntryV { symbol: self.symbol@, addr: self.addr }
    }
}

/// The entries of a label table's map, in order, each with its name.
pub uninterp spec fn label_entries(m: IndexMap<SymbolName, LabelTableEntry>) -> Seq<(SymbolNameV, LabelTableEntryV)>;

/// Calls `IndexMap::new`, which makes an empty map.
#[verifier::external_body]
fn label_map_new() -> (m: IndexMap<SymbolName, LabelTableEntry>)
    ensures
        label_entries(m) == Seq::<(SymbolNameV, LabelTableEntryV)>::empty(),
{
    IndexMap::new()
}

/// Calls `IndexMap::contains_key`: whether some entry has the name `k`.
/// Names are compared by `SymbolName`'s derived equality, which compares
/// the bare names and the namespaces as text.
#[verifier::external_body]
fn label_map_contains(m: &IndexMap<SymbolName, LabelTableEntry>, k: &SymbolName) -> (r: bool)
    ensures
        r == (find_key(label_entries(*m), k@) is Some),
{
    m.contains_key(k)
}

/// Calls `IndexMap::insert`: an entry with the name `k` keeps its place
/// and takes the new value, else the entry goes last.
#[verifier::external_body]
fn label_map_insert(m: &mut IndexMap<SymbolName, LabelTableEntry>, k: SymbolName, v: LabelTableEntry)
    ensures
        label_entries(*final(m)) == insert_pair(label_entries(*old(m)), k@, v@),
{
    m.insert(k, v);
}

/// Calls `IndexMap::len`: the number of entries.
#[verifier::external_body]
fn label_map_len(m: &IndexMap<SymbolName, LabelTableEntry>) -> (r: usize)
    ensures
        r == label_entries(*m).len(),
{
    m.len()
}

/// Calls `IndexMap::get_index`: the entry at position `i`, if any.
#[verifier::external_body]
fn label_map_get_index<'a>(m: &'a IndexMap<SymbolName, LabelTableEntry>, i: usize) -> (r: Option<(&'a SymbolName, &'a LabelTableEntry)>)
    ensures
        match r {
            Some((k, e)) => i < label_entries(*m).len() && k@ == label_entries(*m)[i as int].0
                && e@ == label_entries(*m)[i as int].1,
            None => i >= label_entries(*m).len(),
        },
{
    m.get_index(i)
}

/// The table of all labels, in order of definition, then the external
/// labels in order of first use.
#[derive(Debug)]
pub struct LabelTable {
    entries: IndexMap<SymbolName, LabelTableEntry>,
}

impl View for LabelTable {
    type V = Seq<(SymbolNameV, LabelTableEntryV)>;

    closed spec fn view(&self) -> Seq<(SymbolNameV, LabelTableEntryV)> {
        label_entries(self.entries)
    }
}

/// The number of instructions among `lines`.
pub open spec fn instr_count(lines: Seq<SemanticReprV>) -> nat
    decreases lines.len(),
{
    if lines.len() == 0 {
        0
    } else {
        instr_count(lines.drop_last()) + if lines.last() is Instruction { 1nat } else { 0nat }
    }
}

/// The number of instructions of all modules.
pub open spec fn modules_instr_count(mods: Seq<(Seq<char>, Seq<SemanticReprV>)>) -> nat
    decreases mods.len(),
{
    if mods.len() == 0 {
        0
    } else {
        modules_instr_count(mods.drop_last()) + instr_count(mods.last().1)
    }
}

proof fn lemma_lower_lines_instr_count(t: BindingTableV, lines: Seq<SemanticReprV>, m: Seq<char>)
    ensures
        instr_count(lower_lines(t, lines, m).0) == instr_count(lines),
    decreases lines.len(),
{
    if lines.len() > 0 {
        lemma_lower_lines_instr_count(t, lines.drop_last(), m);
        let r = lower_lines(t, lines, m).0;
        lemma_lower_lines_len(t, lines.drop_last(), m);
        assert(r.drop_last() =~= lower_lines(t, lines.drop_last(), m).0);
    }
}

/// Lowering binding references keeps every instruction an instruction:
/// the lowered modules hold as many instructions as the modules.
pub proof fn lemma_lowering_keeps_instruction_count(t: BindingTableV, mods: Seq<(Seq<char>, Seq<SemanticReprV>)>)
    ensures
        modules_instr_count(lower_modules(t, mods).0) == modules_instr_count(mods),
    decreases mods.len(),
{
    if mods.len() > 0 {
        lemma_lowering_keeps_instruction_count(t, mods.drop_last());
        lemma_lower_lines_instr_count(t, mods.last().1, mods.last().0);
        let r = lower_modules(t, mods).0;
        assert(r.drop_last() =~= lower_modules(t, mods.drop_last()).0);
    }
}

/// The first label pass over a line of module `m`, with `addr` the number
/// of instructions before it: a label is recorded at that address under
/// its name in `m`; a label whose name as written is already recorded is
/// refused.
pub open spec fn label_line(
    entries: Seq<(SymbolNameV, LabelTableEntryV)>,
    addr: nat,
    line: SemanticReprV,
    m: Seq<char>,
) -> (Seq<(SymbolNameV, LabelTableEntryV)>, nat, Option<CompilerErrorV>) {
    match line {
        SemanticReprV::Label(sym) => {
            let name = sym.name.with_current_module(m);
            if find_key(entries, name) is Some {
                (entries, addr, Some(CompilerErrorV::DuplicateLabel(name)))
            } else {
            (
                insert_pair(entries, name, LabelTableEntryV { symbol: SemanticSymbolV { name, external: false }, addr: addr as u64 }),
                addr,
                None,
            )
            }
        },
        SemanticReprV::Instruction(_) => (entries, addr + 1, None),
        _ => (entries, addr, None),
    }
}

/// The first label pass over the lines of module `m`, stopping at the
/// first error.
pub open spec fn label_lines(
    entries: Seq<(SymbolNameV, LabelTableEntryV)>,
    addr: nat,
    lines: Seq<SemanticReprV>,
    m: Seq<char>,
) -> (Seq<(SymbolNameV, LabelTableEntryV)>, nat, Option<CompilerErrorV>)
    decreases lines.len(),
{
    if lines.len() == 0 {
        (entries, addr, None)
    } else {
        let (e1, a1, err) = label_lines(entries, addr, lines.drop_last(), m);
        if err is Some {
            (e1, a1, err)
        } else {
            label_line(e1, a1, lines.last(), m)
        }
    }
}

/// The first label pass over the modules, stopping at the first error.
pub open spec fn label_modules(
    entries: Seq<(SymbolNameV, LabelTableEntryV)>,
    addr: nat,
    mods: Seq<(Seq<char>, Seq<SemanticReprV>)>,
) -> (Seq<(SymbolNameV, LabelTableEntryV)>, nat, Option<CompilerErrorV>)
    decreases mods.len(),
{
    if mods.len() == 0 {
        (entries, addr, None)
    } else {
        let (e1, a1, err) = label_modules(entries, addr, mods.drop_last());
        if err is Some {
            (e1, a1, err)
        } else {
            label_lines(e1, a1, mods.last().1, mods.last().0)
        }
    }
}

/// The second label pass over an operand of module `m`: an external
/// label met for the first time is recorded, and a label operand must
/// name a recorded label.
pub open spec fn check_operand(
    entries: Seq<(SymbolNameV, LabelTableEntryV)>,
    op: SemanticOperandV,
    m: Seq<char>,
) -> (Seq<(SymbolNameV, LabelTableEntryV)>, Option<CompilerErrorV>) {
    let e1 = match op.external_symbol() {
        Some((name, _)) => if find_key(entries, name) is Some {
            entries
        } else {
            insert_pair(entries, name, LabelTableEntryV { symbol: SemanticSymbolV { name, external: true }, addr: 0 })
        },
        None => entries,
    };
    match op {
        SemanticOperandV::Immediate(SemanticImmediateTypeV::Label(sym, _)) => {
            let name = sym.name.with_current_module(m);
            if find_key(e1, name) is None {
                (e1, Some(CompilerErrorV::UndefinedLabel(name)))
            } else {
                (e1, None)
            }
        },
        _ => (e1, None),
    }
}

/// The second label pass over operands, stopping at the first error.
pub open spec fn check_ops(
    entries: Seq<(SymbolNameV, LabelTableEntryV)>,
    ops: Seq<SemanticOperandV>,
    m: Seq<char>,
) -> (Seq<(SymbolNameV, LabelTableEntryV)>, Option<CompilerErrorV>)
    decreases ops.len(),
{
    if ops.len() == 0 {
        (entries, None)
    } else {
        let (e1, err) = check_ops(entries, ops.drop_last(), m);
        if err is Some {
            (e1, err)
        } else {
            check_operand(e1, ops.last(), m)
        }
    }
}

/// The second label pass over the lines of module `m`: the operands of
/// each instruction are checked, stopping at the first error.
pub open spec fn check_lines(
    entries: Seq<(SymbolNameV, LabelTableEntryV)>,
    lines: Seq<SemanticReprV>,
    m: Seq<char>,
) -> (Seq<(SymbolNameV, LabelTableEntryV)>, Option<CompilerErrorV>)
    decreases lines.len(),
{
    if lines.len() == 0 {
        (entries, None)
    } else {
        let (e1, err) = check_lines(entries, lines.drop_last(), m);
        if err is Some {
            (e1, err)
        } else {
            match lines.last() {
                SemanticReprV::Instruction(ins) => check_ops(e1, ins.operands, m),
                _ => (e1, None),
            }
        }
    }
}

/// The second label pass over the modules, stopping at the first error.
pub open spec fn check_modules(
    entries: Seq<(SymbolNameV, LabelTableEntryV)>,
    mods: Seq<(Seq<char>, Seq<SemanticReprV>)>,
) -> (Seq<(SymbolNameV, LabelTableEntryV)>, Option<CompilerErrorV>)
    decreases mods.len(),
{
    if mods.len() == 0 {
        (entries, None)
    } else {
        let (e1, err) = check_modules(entries, mods.drop_last());
        if err is Some {
            (e1, err)
        } else {
            check_lines(e1, mods.last().1, mods.last().0)
        }
    }
}

/// The entries of the label table of the modules, or the first error met.
pub open spec fn spec_label_table(mods: Seq<(Seq<char>, Seq<SemanticReprV>)>) -> Result<Seq<(SymbolNameV, LabelTableEntryV)>, CompilerErrorV> {
    let (e1, _, err) = label_modules(Seq::empty(), 0, mods);
    match err {
        Some(e) => Err(e),
        None => {
            let (e2, err2) = check_modules(e1, mods);
            match err2 {
                Some(e) => Err(e),
                None => Ok(e2),
            }
        },
    }
}

proof fn lemma_label_lines_addr(entries: Seq<(SymbolNameV, LabelTableEntryV)>, addr: nat, lines: Seq<SemanticReprV>, m: Seq<char>)
    ensures
        label_lines(entries, addr, lines, m).1 <= addr + instr_count(lines),
    decreases lines.len(),
{
    if lines.len() > 0 {
        lemma_label_lines_addr(entries, addr, lines.drop_last(), m);
    }
}

proof fn lemma_label_lines_stop(entries: Seq<(SymbolNameV, LabelTableEntryV)>, addr: nat, lines: Seq<SemanticReprV>, n: int, m: Seq<char>)
    requires
        0 <= n <= lines.len(),
        label_lines(entries, addr, lines.subrange(0, n), m).2 is Some,
    ensures
        label_lines(entries, addr, lines, m) == label_lines(entries, addr, lines.subrange(0, n), m),
    decreases lines.len() - n,
{
    if n == lines.len() {
        assert(lines.subrange(0, n) =~= lines);
    } else {
        lemma_modules_prefix_step(lines, n);
        lemma_label_lines_stop(entries, addr, lines, n + 1, m);
    }
}

proof fn lemma_check_ops_stop(entries: Seq<(SymbolNameV, LabelTableEntryV)>, ops: Seq<SemanticOperandV>, n: int, m: Seq<char>)
    requires
        0 <= n <= ops.len(),
        check_ops(entries, ops.subrange(0, n), m).1 is Some,
    ensures
        check_ops(entries, ops, m) == check_ops(entries, ops.subrange(0, n), m),
    decreases ops.len() - n,
{
    if n == ops.len() {
        assert(ops.subrange(0, n) =~= ops);
    } else {
        lemma_modules_prefix_step(ops, n);
        lemma_check_ops_stop(entries, ops, n + 1, m);
    }
}

proof fn lemma_check_lines_stop(entries: Seq<(SymbolNameV, LabelTableEntryV)>, lines: Seq<SemanticReprV>, n: int, m: Seq<char>)
    requires
        0 <= n <= lines.len(),
        check_lines(entries, lines.subrange(0, n), m).1 is Some,
    ensures
        check_lines(entries, lines, m) == check_lines(entries, lines.subrange(0, n), m),
    decreases lines.len() - n,
{
    if n == lines.len() {
        assert(lines.subrange(0, n) =~= lines);
    } else {
        lemma_modules_prefix_step(lines, n);
        lemma_check_lines_stop(entries, lines, n + 1, m);
    }
}

proof fn lemma_label_modules_stop(entries: Seq<(SymbolNameV, LabelTableEntryV)>, addr: nat, mods: Seq<(Seq<char>, Seq<SemanticReprV>)>, n: int)
    requires
        0 <= n <= mods.len(),
        label_modules(entries, addr, mods.subrange(0, n)).2 is Some,
    ensures
        label_modules(entries, addr, mods) == label_modules(entries, addr, mods.subrange(0, n)),
    decreases mods.len() - n,
{
    if n == mods.len() {
        assert(mods.subrange(0, n) =~= mods);
    } else {
        lemma_modules_prefix_step(mods, n);
        lemma_label_modules_stop(entries, addr, mods, n + 1);
    }
}

proof fn lemma_check_modules_stop(entries: Seq<(SymbolNameV, LabelTableEntryV)>, mods: Seq<(Seq<char>, Seq<SemanticReprV>)>, n: int)
    requires
        0 <= n <= mods.len(),
        check_modules(entries, mods.subrange(0, n)).1 is Some,
    ensures
        check_modules(entries, mods) == check_modules(entries, mods.subrange(0, n)),
    decreases mods.len() - n,
{
    if n == mods.len() {
        assert(mods.subrange(0, n) =~= mods);
    } else {
        lemma_modules_prefix_step(mods, n);
        lemma_check_modules_stop(entries, mods, n + 1);
    }
}

proof fn lemma_modules_instr_count_prefix(mods: Seq<(Seq<char>, Seq<SemanticReprV>)>, k: int)
    requires
        0 <= k <= mods.len(),
    ensures
        modules_instr_count(mods.subrange(0, k)) <= modules_instr_count(mods),
    decreases mods.len() - k,
{
    if k < mods.len() {
        lemma_modules_instr_count_prefix(mods, k + 1);
        lemma_modules_prefix_step(mods, k);
    } else {
        assert(mods.subrange(0, k) =~= mods);
    }
}

proof fn lemma_label_modules_addr(entries: Seq<(SymbolNameV, LabelTableEntryV)>, addr: nat, mods: Seq<(Seq<char>, Seq<SemanticReprV>)>)
    ensures
        label_modules(entries, addr, mods).1 <= addr + modules_instr_count(mods),
    decreases mods.len(),
{
    if mods.len() > 0 {
        lemma_label_modules_addr(entries, addr, mods.drop_last());
        let (e1, a1, _) = label_modules(entries, addr, mods.drop_last());
        lemma_label_lines_addr(e1, a1, mods.last().1, mods.last().0);
    }
}

/// The first label pass over the lines of module `module_name`.
fn label_pass(
    entries: &mut IndexMap<SymbolName, LabelTableEntry>,
    addr: &mut u64,
    source: &[SemanticRepr],
    module_name: &str,
) -> (r: CompileResult<()>)
    requires
        *old(addr) + instr_count(crate::semantic::reprs_view(source@)) <= u64::MAX,
    ensures
        ({
            let (e, a, err) = label_lines(label_entries(*old(entries)), *old(addr) as nat, crate::semantic::reprs_view(source@), module_name@);
            &&& label_entries(*final(entries)) == e
            &&& *final(addr) == a
            &&& match r {
                Ok(()) => err is None,
                Err(x) => err == Some(x@),
            }
        }),
{
    let ghost lines = crate::semantic::reprs_view(source@);
    let ghost m = module_name@;
    let ghost e0 = label_entries(*entries);
    let ghost a0 = *addr as nat;
    for i in 0..source.len()
        invariant
            lines == crate::semantic::reprs_view(source@),
            lines.len() == source@.len(),
            m == module_name@,
            e0 == label_entries(*old(entries)),
            a0 == *old(addr) as nat,
            a0 + instr_count(lines) <= u64::MAX,
            label_lines(e0, a0, lines.subrange(0, i as int), m) == (label_entries(*entries), *addr as nat, None::<CompilerErrorV>),
    {
        proof {
            lemma_modules_prefix_step(lines, i as int);
            assert(lines[i as int] == source@[i as int]@);
            lemma_label_lines_addr(e0, a0, lines.subrange(0, i as int), m);
            assert(lines.subrange(0, i + 1).drop_last() =~= lines.subrange(0, i as int));
            lemma_instr_count_prefix(lines, i + 1);
        }
        match &source[i] {
            SemanticRepr::Label(symbol) => {
                let name = symbol.name.with_current_module(module_name);
                if label_map_contains(entries, &name) {
                    proof {
                        lemma_label_lines_stop(e0, a0, lines, i + 1, m);
                    }
                    return Err(CompilerError::DuplicateLabel(name));
                }
                let entry = LabelTableEntry { symbol: SemanticSymbol::new(name.duplicate(), false), addr: *addr };
                label_map_insert(entries, name, entry);
            },
            SemanticRepr::Instruction(_) => {
                *addr = *addr + 1;
            },
            _ => {},
        }
    }
    assert(lines.subrange(0, lines.len() as int) =~= lines);
    Ok(())
}

proof fn lemma_instr_count_prefix(lines: Seq<SemanticReprV>, i: int)
    requires
        0 <= i <= lines.len(),
    ensures
        instr_count(lines.subrange(0, i)) <= instr_count(lines),
    decreases lines.len() - i,
{
    if i < lines.len() {
        lemma_instr_count_prefix(lines, i + 1);
        lemma_modules_prefix_step(lines, i);
    } else {
        assert(lines.subrange(0, i) =~= lines);
    }
}

/// The second label pass over the lines of module `module_name`.
fn check_pass(
    entries: &mut IndexMap<SymbolName, LabelTableEntry>,
    source: &[SemanticRepr],
    module_name: &str,
) -> (r: CompileResult<()>)
    ensures
        ({
            let (e, err) = check_lines(label_entries(*old(entries)), crate::semantic::reprs_view(source@), module_name@);
            &&& label_entries(*final(entries)) == e
            &&& match r {
                Ok(()) => err is None,
                Err(x) => err == Some(x@),
            }
        }),
{
    let ghost lines = crate::semantic::reprs_view(source@);
    let ghost m = module_name@;
    let ghost e0 = label_entries(*entries);
    for i in 0..source.len()
        invariant
            lines == crate::semantic::reprs_view(source@),
            lines.len() == source@.len(),
            m == module_name@,
            e0 == label_entries(*old(entries)),
            check_lines(e0, lines.subrange(0, i as int), m) == (label_entries(*entries), None::<CompilerErrorV>),
    {
        proof {
            lemma_modules_prefix_step(lines, i as int);
            assert(lines[i as int] == source@[i as int]@);
        }
        if let SemanticRepr::Instruction(instruction) = &source[i] {
            let ghost ops = crate::semantic::operands_view(instruction.operands@);
            let ghost el = label_entries(*entries);
            for j in 0..instruction.operands.len()
                invariant
                    ops == crate::semantic::operands_view(instruction.operands@),
                    m == module_name@,
                    lines == crate::semantic::reprs_view(source@),
                    lines.len() == source@.len(),
                    e0 == label_entries(*old(entries)),
                    i < lines.len(),
                    lines[i as int] == SemanticReprV::Instruction(instruction@),
                    check_lines(e0, lines.subrange(0, i as int), m) == (el, None::<CompilerErrorV>),
                    lines.subrange(0, i + 1).drop_last() == lines.subrange(0, i as int),
                    lines.subrange(0, i + 1).last() == lines[i as int],
                    check_ops(el, ops.subrange(0, j as int), m) == (label_entries(*entries), None::<CompilerErrorV>),
            {
                proof {
                    lemma_modules_prefix_step(ops, j as int);
                    assert(ops[j as int] == instruction.operands@[j as int]@);
                }
                let operand = &instruction.operands[j];
                if let Some(external) = operand.get_external_symbol() {
                    if !label_map_contains(entries, &external.name) {
                        let entry = LabelTableEntry { symbol: SemanticSymbol::new(external.name.duplicate(), true), addr: 0 };
                        label_map_insert(entries, external.name.duplicate(), entry);
                    }
                }
                if let SemanticOperand::Immediate(SemanticImmediateType::Label(symbol, _)) = operand {
                    let name = symbol.name.with_current_module(module_name);
                    if !label_map_contains(entries, &name) {
                        proof {
                            lemma_check_ops_stop(el, ops, j + 1, m);
                            assert(check_lines(e0, lines.subrange(0, i + 1), m) == check_ops(el, ops, m));
                            lemma_check_lines_stop(e0, lines, i + 1, m);
                        }
                        return Err(CompilerError::UndefinedLabel(name));
                    }
                }
            }
            assert(ops.subrange(0, ops.len() as int) =~= ops);
        }
    }
    assert(lines.subrange(0, lines.len() as int) =~= lines);
    Ok(())
}

impl LabelTable {
    /// Builds the label table of all modules: every label is given the
    /// address of the instruction it stands before, counting across the
    /// modules in order; then every label operand must name a label, and
    /// external labels are recorded as met.
    pub fn parse(lines: &IndexMap<String, Vec<SemanticRepr>>) -> (r: CompileResult<Self>)
        requires
            modules_instr_count(module_sources(*lines)) <= u64::MAX,
        ensures
            match spec_label_table(module_sources(*lines)) {
                Ok(e) => r matches Ok(t) && t@ == e,
                Err(err) => r matches Err(x) && x@ == err,
            },
    {
        let ghost mods = module_sources(*lines);
        let mut entries = label_map_new();
        let mut addr_counter: u64 = 0;
        let n = module_map_len(lines);
        for k in 0..n
            invariant
                n == mods.len(),
                mods == module_sources(*lines),
                modules_instr_count(mods) <= u64::MAX,
                label_modules(Seq::empty(), 0, mods.subrange(0, k as int)) == (label_entries(entries), addr_counter as nat, None::<CompilerErrorV>),
        {
            proof {
                lemma_modules_prefix_step(mods, k as int);
                lemma_label_modules_addr(Seq::empty(), 0, mods.subrange(0, k as int));
                lemma_modules_instr_count_prefix(mods, k + 1);
            }
            if let Some((module_name, source)) = module_map_get_index(lines, k) {
                if let Err(e) = label_pass(&mut entries, &mut addr_counter, source.as_slice(), module_name.as_str()) {
                    proof {
                        lemma_label_modules_stop(Seq::empty(), 0, mods, k + 1);
                    }
                    return Err(e);
                }
            }
        }
        assert(mods.subrange(0, n as int) =~= mods);
        let ghost e1 = label_entries(entries);
        for k in 0..n
            invariant
                n == mods.len(),
                mods == module_sources(*lines),
                label_modules(Seq::empty(), 0, mods).0 == e1,
                label_modules(Seq::empty(), 0, mods).2 is None,
                check_modules(e1, mods.subrange(0, k as int)) == (label_entries(entries), None::<CompilerErrorV>),
        {
            proof {
                lemma_modules_prefix_step(mods, k as int);
            }
            if let Some((module_name, source)) = module_map_get_index(lines, k) {
                if let Err(e) = check_pass(&mut entries, source.as_slice(), module_name.as_str()) {
                    proof {
                        lemma_check_modules_stop(e1, mods, k + 1);
                    }
                    return Err(e);
                }
            }
        }
        assert(mods.subrange(0, n as int) =~= mods);
        Ok(LabelTable { entries })
    }
}

/// The flag byte of a label record: bit 0 for an external label, bit 1
/// for the last record, bit 2 when a namespace follows.
pub open spec fn label_flag(e: LabelTableEntryV, last: bool, new_ns: bool) -> u8 {
    (if e.symbol.external { 1u8 } else { 0u8 }) | (if last { 2u8 } else { 0u8 }) | (if new_ns { 4u8 } else { 0u8 })
}

/// The record of the label at position `i`: its flag, its position, its
/// namespace when it differs from the one written before, its bare name,
/// and its address unless it is external.
pub open spec fn label_record(i: nat, name: SymbolNameV, e: LabelTableEntryV, last: bool, new_ns: bool) -> Seq<u8> {
    seq![label_flag(e, last, new_ns)] + varint_bytes(i) + (if new_ns {
        cstr_bytes(name.namespace->0)
    } else {
        Seq::empty()
    }) + cstr_bytes(name.name) + if !e.symbol.external {
        varint_bytes(e.addr as nat)
    } else {
        Seq::empty()
    }
}

/// The records of the first `n` labels, and the namespace written last.
pub open spec fn label_records(entries: Seq<(SymbolNameV, LabelTableEntryV)>, n: nat) -> (Seq<u8>, Option<Seq<char>>)
    decreases n,
{
    if n == 0 || n > entries.len() {
        (Seq::empty(), None)
    } else {
        let (prev, cur) = label_records(entries, (n - 1) as nat);
        let name = entries[n - 1].0;
        let new_ns = cur != name.namespace;
        (prev + label_record((n - 1) as nat, name, entries[n - 1].1, n == entries.len(), new_ns), name.namespace)
    }
}

/// Writes the record of the label `symbol` at position `i`.
fn write_label_record(
    stream: &mut BytecodeStream,
    i: usize,
    symbol: &SymbolName,
    namespace: &String,
    entry: &LabelTableEntry,
    last: bool,
    write_namespace: bool,
)
    requires
        symbol@.namespace == Some(namespace@),
    ensures
        final(stream)@ == old(stream)@ + label_record(i as nat, symbol@, entry@, last, write_namespace),
{
    let flag: u8 = (if entry.symbol.external { 1u8 } else { 0u8 }) | (if last { 2u8 } else { 0u8 }) | (if write_namespace {
        4u8
    } else {
        0u8
    });
    stream.write_u8(flag);
    stream.write_varint64(i as u64);
    if write_namespace {
        stream.write_cstr(namespace.as_str());
    }
    stream.write_cstr(symbol.name.as_str());
    if !entry.symbol.external {
        stream.write_varint64(entry.addr);
    }
    assert(stream@ =~= old(stream)@ + label_record(i as nat, symbol@, entry@, last, write_namespace));
}

impl LabelTable {
    /// Writes the table: a record per label, in order.
    pub fn serialize(&self, stream: &mut BytecodeStream)
        requires
            all_qualified(self@),
        ensures
            final(stream)@ == old(stream)@ + label_records(self@, self@.len()).0,
    {
        let ghost entries = self@;
        let n = label_map_len(&self.entries);
        let mut current_namespace: Option<&String> = None;
        for i in 0..n
            invariant
                n == entries.len(),
                entries == label_entries(self.entries),
                all_qualified(entries),
                stream@ == old(stream)@ + label_records(entries, i as nat).0,
                match current_namespace {
                    Some(c) => label_records(entries, i as nat).1 == Some(c@),
                    None => label_records(entries, i as nat).1 is None,
                },
        {
            let (symbol, entry) = match label_map_get_index(&self.entries, i) {
                Some(pair) => pair,
                None => {
                    return;
                },
            };
            let namespace = match &symbol.namespace {
                Some(ns) => ns,
                None => {
                    assert(entries[i as int].0.namespace is Some);
                    return;
                },
            };
            let write_namespace = match current_namespace {
                Some(c) => !same_text(c, namespace),
                None => true,
            };
            if write_namespace {
                current_namespace = Some(namespace);
            }
            proof {
                assert(write_namespace == (label_records(entries, i as nat).1 != entries[i as int].0.namespace));
            }
            write_label_record(stream, i, symbol, namespace, entry, i == n - 1, write_namespace);
            proof {
                assert(label_records(entries, (i + 1) as nat).1 == Some(namespace@));
                assert(stream@ =~= old(stream)@ + label_records(entries, (i + 1) as nat).0);
            }
        }
    }
}


// ---------------------------------------------------------------------
// Programs without external symbols.

/// Whether no operand of any instruction of the modules names a symbol
/// defined outside the sources.
pub open spec fn no_external_symbols(mods: Seq<(Seq<char>, Seq<SemanticReprV>)>) -> bool {
    forall|k: int, i: int, j: int|
        0 <= k < mods.len() && 0 <= i < mods[k].1.len() && 0 <= j < instruction_operands(mods[k].1[i]).len()
            ==> (#[trigger] instruction_operands(mods[k].1[i])[j]).external_symbol() is None
}

/// The operands of a line: those of an instruction, none for any other line.
pub open spec fn instruction_operands(line: SemanticReprV) -> Seq<SemanticOperandV> {
    match line {
        SemanticReprV::Instruction(ins) => ins.operands,
        _ => Seq::empty(),
    }
}

/// Whether no entry of `entries` is an external binding.
pub open spec fn no_extern_entries(entries: Seq<(SymbolNameV, BindingTableEntryV)>) -> bool {
    forall|k: int| 0 <= k < entries.len() ==> !((#[trigger] entries[k]).1.alloc is Extern)
}

proof fn lemma_insert_pair_no_extern(s: Seq<(SymbolNameV, BindingTableEntryV)>, k: SymbolNameV, v: BindingTableEntryV)
    requires
        no_extern_entries(s),
        !(v.alloc is Extern),
    ensures
        no_extern_entries(insert_pair(s, k, v)),
{
    lemma_find_key(s, k);
    let r = insert_pair(s, k, v);
    assert forall|j: int| 0 <= j < r.len() implies !((#[trigger] r[j]).1.alloc is Extern) by {
        match find_key(s, k) {
            Some(i) => {
                if j != i {
                    assert(r[j] == s[j]);
                }
            },
            None => {
                if j < s.len() {
                    assert(r[j] == s[j]);
                }
            },
        }
    }
}

proof fn lemma_pre_operands_no_extern(t: BindingTableV, ops: Seq<SemanticOperandV>, m: Seq<char>)
    requires
        no_extern_entries(t.entries),
        forall|j: int| 0 <= j < ops.len() ==> (#[trigger] ops[j]).external_symbol() is None,
    ensures
        pre_operands(t, ops, m).0.entries == t.entries,
    decreases ops.len(),
{
    if ops.len() > 0 {
        assert forall|j: int| 0 <= j < ops.drop_last().len() implies (#[trigger] ops.drop_last()[j]).external_symbol() is None by {
            assert(ops.drop_last()[j] == ops[j]);
        }
        lemma_pre_operands_no_extern(t, ops.drop_last(), m);
        assert(ops[ops.len() - 1].external_symbol() is None);
    }
}

proof fn lemma_pre_lines_no_extern(t: BindingTableV, lines: Seq<SemanticReprV>, m: Seq<char>)
    requires
        no_extern_entries(t.entries),
        forall|i: int, j: int| 0 <= i < lines.len() && 0 <= j < instruction_operands(lines[i]).len()
            ==> (#[trigger] instruction_operands(lines[i])[j]).external_symbol() is None,
    ensures
        pre_lines(t, lines, m).0.entries == t.entries,
    decreases lines.len(),
{
    if lines.len() > 0 {
        assert forall|i: int, j: int| 0 <= i < lines.drop_last().len() && 0 <= j < instruction_operands(lines.drop_last()[i]).len()
            implies (#[trigger] instruction_operands(lines.drop_last()[i])[j]).external_symbol() is None by {
            assert(lines.drop_last()[i] == lines[i]);
        }
        lemma_pre_lines_no_extern(t, lines.drop_last(), m);
        let last = lines[lines.len() - 1];
        if let SemanticReprV::Instruction(ins) = last {
            assert forall|j: int| 0 <= j < ins.operands.len() implies (#[trigger] ins.operands[j]).external_symbol() is None by {
                assert(instruction_operands(lines[lines.len() - 1])[j] == ins.operands[j]);
            }
            lemma_pre_operands_no_extern(pre_lines(t, lines.drop_last(), m).0, ins.operands, m);
        }
    }
}

proof fn lemma_pre_modules_no_extern(t: BindingTableV, mods: Seq<(Seq<char>, Seq<SemanticReprV>)>)
    requires
        no_extern_entries(t.entries),
        no_external_symbols(mods),
    ensures
        pre_modules(t, mods).0.entries == t.entries,
    decreases mods.len(),
{
    if mods.len() > 0 {
        assert forall|k: int, i: int, j: int|
            0 <= k < mods.drop_last().len() && 0 <= i < mods.drop_last()[k].1.len()
                && 0 <= j < instruction_operands(mods.drop_last()[k].1[i]).len()
            implies (#[trigger] instruction_operands(mods.drop_last()[k].1[i])[j]).external_symbol() is None by {
            assert(mods.drop_last()[k] == mods[k]);
        }
        lemma_pre_modules_no_extern(t, mods.drop_last());
        let last = mods[mods.len() - 1];
        assert forall|i: int, j: int| 0 <= i < last.1.len() && 0 <= j < instruction_operands(last.1[i]).len()
            implies (#[trigger] instruction_operands(last.1[i])[j]).external_symbol() is None by {
            assert(instruction_operands(mods[mods.len() - 1].1[i])[j] == instruction_operands(last.1[i])[j]);
        }
        lemma_pre_lines_no_extern(pre_modules(t, mods.drop_last()).0, last.1, last.0);
    }
}

proof fn lemma_append_from_no_extern(t: BindingTableV, open: bool, lines: Seq<SemanticReprV>, m: Seq<char>)
    requires
        no_extern_entries(t.entries),
    ensures
        no_extern_entries(append_from(t, open, lines, m).0.entries),
    decreases lines.len(),
{
    if lines.len() > 0 {
        lemma_append_from_no_extern(t, open, lines.drop_last(), m);
        let (t1, o1, _) = append_from(t, open, lines.drop_last(), m);
        if let SemanticReprV::BindingDef(def) = lines.last() {
            let s = qualified(def.name, m);
            lemma_insert_pair_no_extern(
                t1.entries,
                s,
                BindingTableEntryV { def, alloc: BindingAllocationType::Static(t1.counter as usize) },
            );
            lemma_insert_pair_no_extern(t1.entries, s, BindingTableEntryV { def, alloc: BindingAllocationType::Inline });
        }
    }
}

proof fn lemma_append_modules_no_extern(t: BindingTableV, mods: Seq<(Seq<char>, Seq<SemanticReprV>)>)
    requires
        no_extern_entries(t.entries),
    ensures
        no_extern_entries(append_modules(t, mods).0.entries),
    decreases mods.len(),
{
    if mods.len() > 0 {
        lemma_append_modules_no_extern(t, mods.drop_last());
        lemma_append_from_no_extern(append_modules(t, mods.drop_last()).0, false, mods.last().1, mods.last().0);
    }
}

/// Whether the operand refers to a binding in any way: directly, through a
/// dereference, or through a constant dereference.
pub open spec fn is_binding_reference(op: SemanticOperandV) -> bool {
    ||| op matches SemanticOperandV::Immediate(SemanticImmediateTypeV::Binding(_, _))
    ||| op matches SemanticOperandV::Immediate(SemanticImmediateTypeV::ConstDerefBinding(_))
    ||| op matches SemanticOperandV::Deref(SemanticDerefV { kind: SemanticDerefKindV::Binding(_), .. })
}

/// In a program that names no symbol defined outside the sources, lowering
/// that meets no error leaves no binding reference at all: each is
/// replaced by its address or its inlined value.
pub proof fn lemma_lowering_removes_all_binding_references(mods: Seq<(Seq<char>, Seq<SemanticReprV>)>)
    requires
        no_external_symbols(mods),
        spec_binding_table(mods) is Ok,
        lower_modules(spec_binding_table(mods)->Ok_0, mods).1 is None,
    ensures
        forall|k: int, i: int, j: int|
            0 <= k < mods.len() && 0 <= i < lower_modules(spec_binding_table(mods)->Ok_0, mods).0[k].1.len()
                && 0 <= j < instruction_operands(lower_modules(spec_binding_table(mods)->Ok_0, mods).0[k].1[i]).len()
            ==> !is_binding_reference(
                #[trigger] instruction_operands(lower_modules(spec_binding_table(mods)->Ok_0, mods).0[k].1[i])[j],
            ),
{
    let t0 = empty_binding_table();
    let t = spec_binding_table(mods)->Ok_0;
    assert(no_extern_entries(t0.entries));
    lemma_pre_modules_no_extern(t0, mods);
    lemma_append_modules_no_extern(pre_modules(t0, mods).0, mods);
    assert(no_extern_entries(t.entries));
    lemma_lowered_modules_replace_binding_references(t, mods);
    let low = lower_modules(t, mods).0;
    assert forall|k: int, i: int, j: int|
        0 <= k < mods.len() && 0 <= i < low[k].1.len() && 0 <= j < instruction_operands(low[k].1[i]).len()
        implies !is_binding_reference(#[trigger] instruction_operands(low[k].1[i])[j]) by {
        let line = low[k].1[i];
        assert(line_binding_refs_lowered(t, line, mods[k].0));
        if let SemanticReprV::Instruction(ins) = line {
            let op = ins.operands[j];
            assert(binding_ref_lowered(t, op, mods[k].0));
            match op {
                SemanticOperandV::Immediate(SemanticImmediateTypeV::Binding(sym, _)) => {
                    lemma_find_key(t.entries, sym.name.with_current_module(mods[k].0));
                },
                SemanticOperandV::Deref(d) => {
                    if let SemanticDerefKindV::Binding(sym) = d.kind {
                        lemma_find_key(t.entries, sym.name.with_current_module(mods[k].0));
                    }
                },
                _ => {},
            }
        }
    }
}

// ---------------------------------------------------------------------
// Which bindings are inlined.

/// Whether every binding of `t` defined in the sources is inlined exactly
/// when it has been dereferenced as a constant (its mark in `t` is set to
/// `true`), and allocated otherwise.
pub open spec fn inlined_only_when_marked(t: BindingTableV) -> bool {
    forall|k: int| 0 <= k < t.entries.len() && !((#[trigger] t.entries[k]).1.alloc is Extern) ==>
        ((t.entries[k].1.alloc is Inline) == (t.const_deref.contains_key(t.entries[k].0) && t.const_deref[t.entries[k].0]))
}

/// Whether every binding of `entries` is external.
pub open spec fn no_inline_entries(entries: Seq<(SymbolNameV, BindingTableEntryV)>) -> bool {
    forall|k: int| 0 <= k < entries.len() ==> (#[trigger] entries[k]).1.alloc is Extern
}

proof fn lemma_insert_pair_keeps_others(s: Seq<(SymbolNameV, BindingTableEntryV)>, k: SymbolNameV, v: BindingTableEntryV, j: int)
    requires
        0 <= j < insert_pair(s, k, v).len(),
    ensures
        insert_pair(s, k, v)[j] == (k, v) || (j < s.len() && insert_pair(s, k, v)[j] == s[j]),
{
    lemma_find_key(s, k);
}

proof fn lemma_pre_operands_no_inline(t: BindingTableV, ops: Seq<SemanticOperandV>, m: Seq<char>)
    requires
        no_inline_entries(t.entries),
    ensures
        no_inline_entries(pre_operands(t, ops, m).0.entries),
    decreases ops.len(),
{
    if ops.len() > 0 {
        lemma_pre_operands_no_inline(t, ops.drop_last(), m);
        let t1 = pre_operands(t, ops.drop_last(), m).0;
        match ops.last().external_symbol() {
            Some((name, _)) => {
                if find_key(t1.entries, name) is None {
                    let v = BindingTableEntryV { def: extern_def(name), alloc: BindingAllocationType::Extern };
                    assert forall|j: int| 0 <= j < insert_pair(t1.entries, name, v).len()
                        implies (#[trigger] insert_pair(t1.entries, name, v)[j]).1.alloc is Extern by {
                        lemma_insert_pair_keeps_others(t1.entries, name, v, j);
                    }
                }
            },
            None => {},
        }
    }
}

proof fn lemma_pre_lines_no_inline(t: BindingTableV, lines: Seq<SemanticReprV>, m: Seq<char>)
    requires
        no_inline_entries(t.entries),
    ensures
        no_inline_entries(pre_lines(t, lines, m).0.entries),
    decreases lines.len(),
{
    if lines.len() > 0 {
        lemma_pre_lines_no_inline(t, lines.drop_last(), m);
        if let SemanticReprV::Instruction(ins) = lines.last() {
            lemma_pre_operands_no_inline(pre_lines(t, lines.drop_last(), m).0, ins.operands, m);
        }
    }
}

proof fn lemma_pre_modules_no_inline(t: BindingTableV, mods: Seq<(Seq<char>, Seq<SemanticReprV>)>)
    requires
        no_inline_entries(t.entries),
    ensures
        no_inline_entries(pre_modules(t, mods).0.entries),
    decreases mods.len(),
{
    if mods.len() > 0 {
        lemma_pre_modules_no_inline(t, mods.drop_last());
        lemma_pre_lines_no_inline(pre_modules(t, mods.drop_last()).0, mods.last().1, mods.last().0);
    }
}

proof fn lemma_append_from_marked(t: BindingTableV, open: bool, lines: Seq<SemanticReprV>, m: Seq<char>)
    requires
        inlined_only_when_marked(t),
    ensures
        inlined_only_when_marked(append_from(t, open, lines, m).0),
        append_from(t, open, lines, m).0.const_deref == t.const_deref,
    decreases lines.len(),
{
    if lines.len() > 0 {
        lemma_append_from_marked(t, open, lines.drop_last(), m);
        let (t1, o1, e) = append_from(t, open, lines.drop_last(), m);
        if e is None {
            if let SemanticReprV::BindingDef(def) = lines.last() {
                let s = qualified(def.name, m);
                if o1 && find_key(t1.entries, s) is None {
                    let v = if !spec_can_inline(t1, s) {
                        BindingTableEntryV { def, alloc: BindingAllocationType::Static(t1.counter as usize) }
                    } else {
                        BindingTableEntryV { def, alloc: BindingAllocationType::Inline }
                    };
                    let r = insert_pair(t1.entries, s, v);
                    assert forall|j: int| 0 <= j < r.len() && !((#[trigger] r[j]).1.alloc is Extern) implies
                        ((r[j].1.alloc is Inline) == (t1.const_deref.contains_key(r[j].0) && t1.const_deref[r[j].0])) by {
                        lemma_insert_pair_keeps_others(t1.entries, s, v, j);
                    }
                }
            }
        }
    }
}

proof fn lemma_append_modules_marked(t: BindingTableV, mods: Seq<(Seq<char>, Seq<SemanticReprV>)>)
    requires
        inlined_only_when_marked(t),
    ensures
        inlined_only_when_marked(append_modules(t, mods).0),
        append_modules(t, mods).0.const_deref == t.const_deref,
    decreases mods.len(),
{
    if mods.len() > 0 {
        lemma_append_modules_marked(t, mods.drop_last());
        lemma_append_from_marked(append_modules(t, mods.drop_last()).0, false, mods.last().1, mods.last().0);
    }
}

/// A binding is inlined exactly when it has been dereferenced as a
/// constant: in the table built from the modules, a binding defined in the
/// sources is allocated `Inline` exactly when its constant-dereference mark
/// is set to `true`. A constant binding used only directly or with `&` is
/// therefore allocated in the data section, and one dereferenced with
/// `&const` is inlined.
pub proof fn lemma_inline_only_after_const_deref(mods: Seq<(Seq<char>, Seq<SemanticReprV>)>)
    requires
        spec_binding_table(mods) is Ok,
    ensures
        inlined_only_when_marked(spec_binding_table(mods)->Ok_0),
{
    let t0 = empty_binding_table();
    lemma_pre_modules_no_inline(t0, mods);
    let t1 = pre_modules(t0, mods).0;
    assert(inlined_only_when_marked(t1));
    lemma_append_modules_marked(t1, mods);
}

// ---------------------------------------------------------------------
// Label inlining.

/// Calls `IndexMap::get`: the label with the name `k`, if any.
#[verifier::external_body]
fn label_map_get<'a>(m: &'a IndexMap<SymbolName, LabelTableEntry>, k: &SymbolName) -> (r: Option<&'a LabelTableEntry>)
    ensures
        match r {
            Some(e) => find_key(label_entries(*m), k@) matches Some(i) && e@ == label_entries(*m)[i].1,
            None => find_key(label_entries(*m), k@) is None,
        },
{
    m.get(k)
}

/// The instruction address `addr` moved by `offset`, as a 64-bit word.
pub open spec fn label_address_word(addr: u64, offset: i64) -> i64 {
    (addr as int + offset as int) as i64
}

/// A label operand of module `m` replaced by the address of its label in
/// `entries` (moved by the operand's offset); a label defined outside the
/// sources (which has no address here), and any other operand, is kept.
pub open spec fn lower_label_operand(entries: Seq<(SymbolNameV, LabelTableEntryV)>, op: SemanticOperandV, m: Seq<char>) -> SemanticOperandV {
    match op {
        SemanticOperandV::Immediate(SemanticImmediateTypeV::Label(sym, offset)) =>
            match find_key(entries, sym.name.with_current_module(m)) {
                Some(i) => if entries[i].1.symbol.external {
                    op
                } else {
                    SemanticOperandV::Immediate(SemanticImmediateTypeV::Literal(
                        SemanticLiteralV::UntypedInteger(label_address_word(entries[i].1.addr, offset)),
                    ))
                },
                None => op,
            },
        _ => op,
    }
}

/// A line of module `m` with the label operands of an instruction replaced
/// by their addresses.
pub open spec fn lower_label_line(entries: Seq<(SymbolNameV, LabelTableEntryV)>, line: SemanticReprV, m: Seq<char>) -> SemanticReprV {
    match line {
        SemanticReprV::Instruction(ins) => SemanticReprV::Instruction(crate::semantic::SemanticInstructionV {
            opcode: ins.opcode,
            operands: ins.operands.map_values(|o: SemanticOperandV| lower_label_operand(entries, o, m)),
        }),
        _ => line,
    }
}

/// The modules with the label operands of every instruction replaced by
/// their addresses.
pub open spec fn lower_label_modules(
    entries: Seq<(SymbolNameV, LabelTableEntryV)>,
    mods: Seq<(Seq<char>, Seq<SemanticReprV>)>,
) -> Seq<(Seq<char>, Seq<SemanticReprV>)> {
    mods.map_values(|p: (Seq<char>, Seq<SemanticReprV>)|
        (p.0, p.1.map_values(|l: SemanticReprV| lower_label_line(entries, l, p.0))))
}

impl LabelTable {
    fn lower_label_operand(&self, op: &SemanticOperand, module_name: &str) -> (r: SemanticOperand)
        ensures
            r@ == lower_label_operand(self@, op@, module_name@),
    {
        match op {
            SemanticOperand::Immediate(SemanticImmediateType::Label(symbol, offset)) => {
                let name = symbol.name.with_current_module(module_name);
                match label_map_get(&self.entries, &name) {
                    Some(entry) => if entry.symbol.external {
                        op.duplicate()
                    } else {
                        let word = (entry.addr as i128 + *offset as i128) as i64;
                        SemanticOperand::Immediate(SemanticImmediateType::Literal(SemanticLiteral::UntypedInteger(word)))
                    },
                    None => op.duplicate(),
                }
            },
            _ => op.duplicate(),
        }
    }

    fn lower_label_lines(&self, source: &Vec<SemanticRepr>, module_name: &str) -> (r: Vec<SemanticRepr>)
        ensures
            crate::semantic::reprs_view(r@) == crate::semantic::reprs_view(source@).map_values(
                |l: SemanticReprV| lower_label_line(self@, l, module_name@),
            ),
    {
        let ghost src = crate::semantic::reprs_view(source@);
        let mut out: Vec<SemanticRepr> = Vec::new();
        for i in 0..source.len()
            invariant
                src == crate::semantic::reprs_view(source@),
                out@.len() == i,
                crate::semantic::reprs_view(out@) == src.subrange(0, i as int).map_values(
                    |l: SemanticReprV| lower_label_line(self@, l, module_name@),
                ),
        {
            let line = match &source[i] {
                SemanticRepr::Instruction(ins) => {
                    let ghost ops = crate::semantic::operands_view(ins.operands@);
                    let mut new_ops: Vec<SemanticOperand> = Vec::new();
                    for j in 0..ins.operands.len()
                        invariant
                            ops == crate::semantic::operands_view(ins.operands@),
                            new_ops@.len() == j,
                            crate::semantic::operands_view(new_ops@) == ops.subrange(0, j as int).map_values(
                                |o: SemanticOperandV| lower_label_operand(self@, o, module_name@),
                            ),
                    {
                        let o = self.lower_label_operand(&ins.operands[j], module_name);
                        let ghost before = crate::semantic::operands_view(new_ops@);
                        new_ops.push(o);
                        proof {
                            assert(ops[j as int] == ins.operands@[j as int]@);
                            assert(crate::semantic::operands_view(new_ops@) =~= before.push(o@));
                            assert(crate::semantic::operands_view(new_ops@) =~= ops.subrange(0, j + 1).map_values(
                                |o: SemanticOperandV| lower_label_operand(self@, o, module_name@),
                            ));
                        }
                    }
                    proof {
                        assert(ops.subrange(0, ops.len() as int) =~= ops);
                    }
                    SemanticRepr::Instruction(crate::semantic::SemanticInstruction { opcode: ins.opcode, operands: new_ops })
                },
                other => other.duplicate(),
            };
            proof {
                assert(src[i as int] == source@[i as int]@);
                assert(line@ == lower_label_line(self@, src[i as int], module_name@));
            }
            let ghost before = crate::semantic::reprs_view(out@);
            out.push(line);
            proof {
                assert(crate::semantic::reprs_view(out@) =~= before.push(line@));
                assert(crate::semantic::reprs_view(out@) =~= src.subrange(0, i + 1).map_values(
                    |l: SemanticReprV| lower_label_line(self@, l, module_name@),
                ));
            }
        }
        proof {
            assert(src.subrange(0, source@.len() as int) =~= src);
        }
        out
    }

    /// Replaces each label operand of every module's instructions by the
    /// address of its label in the table, moved by the operand's offset.
    /// Labels defined outside the sources, which have no address here, are
    /// kept.
    pub fn lower_labels(&self, lines: &mut IndexMap<String, Vec<SemanticRepr>>)
        ensures
            module_sources(*final(lines)) == lower_label_modules(self@, module_sources(*old(lines))),
    {
        let ghost mods = module_sources(*lines);
        let n = module_map_len(lines);
        for k in 0..n
            invariant
                n == mods.len(),
                mods == module_sources(*old(lines)),
                module_sources(*lines).len() == n,
                forall|j: int| 0 <= j < k ==> #[trigger] module_sources(*lines)[j] == lower_label_modules(self@, mods)[j],
                forall|j: int| k <= j < n ==> #[trigger] module_sources(*lines)[j] == mods[j],
        {
            let name = match module_map_get_index(lines, k) {
                Some((module_name, _)) => module_name.clone(),
                None => String::new(),
            };
            let source = module_map_replace(lines, k, Vec::new());
            let lowered = self.lower_label_lines(&source, name.as_str());
            module_map_replace(lines, k, lowered);
        }
        proof {
            assert(module_sources(*lines) =~= lower_label_modules(self@, mods));
        }
    }
}

// ---------------------------------------------------------------------
// Qualified names.

/// Whether the operand, if it names a symbol defined outside the sources,
/// names it with a namespace.
pub open spec fn op_external_qualified(op: SemanticOperandV) -> bool {
    op.external_symbol() matches Some((n, _)) ==> n.namespace is Some
}

/// Whether every operand of the line, if it is an instruction, names its
/// external symbol with a namespace.
pub open spec fn line_externals_qualified(line: SemanticReprV) -> bool {
    match line {
        SemanticReprV::Instruction(ins) => forall|j: int|
            0 <= j < ins.operands.len() ==> op_external_qualified(#[trigger] ins.operands[j]),
        _ => true,
    }
}

/// Whether every instruction among `lines` names its external symbols
/// with a namespace.
pub open spec fn lines_externals_qualified(lines: Seq<SemanticReprV>) -> bool {
    forall|i: int| 0 <= i < lines.len() ==> line_externals_qualified(#[trigger] lines[i])
}

/// Whether every instruction of every module names its external symbols
/// with a namespace.
pub open spec fn externals_qualified(mods: Seq<(Seq<char>, Seq<SemanticReprV>)>) -> bool {
    forall|k: int| 0 <= k < mods.len() ==> lines_externals_qualified((#[trigger] mods[k]).1)
}

proof fn lemma_insert_pair_qualified<V>(s: Seq<(SymbolNameV, V)>, k: SymbolNameV, v: V)
    requires
        all_qualified(s),
        k.namespace is Some,
    ensures
        all_qualified(insert_pair(s, k, v)),
{
    lemma_find_key(s, k);
    let r = insert_pair(s, k, v);
    assert forall|j: int| 0 <= j < r.len() implies (#[trigger] r[j]).0.namespace is Some by {
        match find_key(s, k) {
            Some(i) => {
                if j != i {
                    assert(r[j] == s[j]);
                }
            },
            None => {
                if j < s.len() {
                    assert(r[j] == s[j]);
                }
            },
        }
    }
}

proof fn lemma_pre_operands_qualified(t: BindingTableV, ops: Seq<SemanticOperandV>, m: Seq<char>)
    requires
        all_qualified(t.entries),
        forall|j: int| 0 <= j < ops.len() ==> op_external_qualified(#[trigger] ops[j]),
    ensures
        all_qualified(pre_operands(t, ops, m).0.entries),
    decreases ops.len(),
{
    if ops.len() > 0 {
        assert forall|j: int| 0 <= j < ops.drop_last().len() implies op_external_qualified(#[trigger] ops.drop_last()[j]) by {
            assert(ops.drop_last()[j] == ops[j]);
        }
        lemma_pre_operands_qualified(t, ops.drop_last(), m);
        let t1 = pre_operands(t, ops.drop_last(), m).0;
        let op = ops.last();
        assert(op_external_qualified(ops[ops.len() - 1]));
        match op.external_symbol() {
            Some((name, _)) => {
                if find_key(t1.entries, name) is None {
                    lemma_insert_pair_qualified(
                        t1.entries,
                        name,
                        BindingTableEntryV { def: extern_def(name), alloc: BindingAllocationType::Extern },
                    );
                }
            },
            None => {},
        }
    }
}

proof fn lemma_pre_lines_qualified(t: BindingTableV, lines: Seq<SemanticReprV>, m: Seq<char>)
    requires
        all_qualified(t.entries),
        lines_externals_qualified(lines),
    ensures
        all_qualified(pre_lines(t, lines, m).0.entries),
    decreases lines.len(),
{
    if lines.len() > 0 {
        assert forall|i: int| 0 <= i < lines.drop_last().len() implies line_externals_qualified(#[trigger] lines.drop_last()[i]) by {
            assert(lines.drop_last()[i] == lines[i]);
        }
        lemma_pre_lines_qualified(t, lines.drop_last(), m);
        let t1 = pre_lines(t, lines.drop_last(), m).0;
        assert(line_externals_qualified(lines[lines.len() - 1]));
        if let SemanticReprV::Instruction(ins) = lines.last() {
            lemma_pre_operands_qualified(t1, ins.operands, m);
        }
    }
}

proof fn lemma_pre_modules_qualified(t: BindingTableV, mods: Seq<(Seq<char>, Seq<SemanticReprV>)>)
    requires
        all_qualified(t.entries),
        externals_qualified(mods),
    ensures
        all_qualified(pre_modules(t, mods).0.entries),
    decreases mods.len(),
{
    if mods.len() > 0 {
        assert forall|k: int| 0 <= k < mods.drop_last().len() implies lines_externals_qualified((#[trigger] mods.drop_last()[k]).1) by {
            assert(mods.drop_last()[k] == mods[k]);
        }
        lemma_pre_modules_qualified(t, mods.drop_last());
        assert(lines_externals_qualified(mods[mods.len() - 1].1));
        lemma_pre_lines_qualified(pre_modules(t, mods.drop_last()).0, mods.last().1, mods.last().0);
    }
}

proof fn lemma_append_from_qualified(t: BindingTableV, open: bool, lines: Seq<SemanticReprV>, m: Seq<char>)
    requires
        all_qualified(t.entries),
    ensures
        all_qualified(append_from(t, open, lines, m).0.entries),
    decreases lines.len(),
{
    if lines.len() > 0 {
        lemma_append_from_qualified(t, open, lines.drop_last(), m);
        let (t1, o1, _) = append_from(t, open, lines.drop_last(), m);
        if let SemanticReprV::BindingDef(def) = lines.last() {
            let s = qualified(def.name, m);
            lemma_insert_pair_qualified(
                t1.entries,
                s,
                BindingTableEntryV { def, alloc: BindingAllocationType::Static(t1.counter as usize) },
            );
            lemma_insert_pair_qualified(t1.entries, s, BindingTableEntryV { def, alloc: BindingAllocationType::Inline });
        }
    }
}

proof fn lemma_append_modules_qualified(t: BindingTableV, mods: Seq<(Seq<char>, Seq<SemanticReprV>)>)
    requires
        all_qualified(t.entries),
    ensures
        all_qualified(append_modules(t, mods).0.entries),
    decreases mods.len(),
{
    if mods.len() > 0 {
        lemma_append_modules_qualified(t, mods.drop_last());
        lemma_append_from_qualified(append_modules(t, mods.drop_last()).0, false, mods.last().1, mods.last().0);
    }
}

/// Where every external symbol is named with a namespace, every binding of
/// the binding table is named with one.
pub proof fn lemma_binding_names_qualified(mods: Seq<(Seq<char>, Seq<SemanticReprV>)>)
    requires
        externals_qualified(mods),
        spec_binding_table(mods) is Ok,
    ensures
        all_qualified(spec_binding_table(mods)->Ok_0.entries),
{
    let t0 = empty_binding_table();
    lemma_pre_modules_qualified(t0, mods);
    lemma_append_modules_qualified(pre_modules(t0, mods).0, mods);
}

proof fn lemma_label_lines_qualified(entries: Seq<(SymbolNameV, LabelTableEntryV)>, addr: nat, lines: Seq<SemanticReprV>, m: Seq<char>)
    requires
        all_qualified(entries),
    ensures
        all_qualified(label_lines(entries, addr, lines, m).0),
    decreases lines.len(),
{
    if lines.len() > 0 {
        lemma_label_lines_qualified(entries, addr, lines.drop_last(), m);
        let (e1, a1, _) = label_lines(entries, addr, lines.drop_last(), m);
        if let SemanticReprV::Label(sym) = lines.last() {
            let name = sym.name.with_current_module(m);
            lemma_insert_pair_qualified(
                e1,
                name,
                LabelTableEntryV { symbol: SemanticSymbolV { name, external: false }, addr: a1 as u64 },
            );
        }
    }
}

proof fn lemma_label_modules_qualified(entries: Seq<(SymbolNameV, LabelTableEntryV)>, addr: nat, mods: Seq<(Seq<char>, Seq<SemanticReprV>)>)
    requires
        all_qualified(entries),
    ensures
        all_qualified(label_modules(entries, addr, mods).0),
    decreases mods.len(),
{
    if mods.len() > 0 {
        lemma_label_modules_qualified(entries, addr, mods.drop_last());
        let (e1, a1, _) = label_modules(entries, addr, mods.drop_last());
        lemma_label_lines_qualified(e1, a1, mods.last().1, mods.last().0);
    }
}

proof fn lemma_check_ops_qualified(entries: Seq<(SymbolNameV, LabelTableEntryV)>, ops: Seq<SemanticOperandV>, m: Seq<char>)
    requires
        all_qualified(entries),
        forall|j: int| 0 <= j < ops.len() ==> op_external_qualified(#[trigger] ops[j]),
    ensures
        all_qualified(check_ops(entries, ops, m).0),
    decreases ops.len(),
{
    if ops.len() > 0 {
        assert forall|j: int| 0 <= j < ops.drop_last().len() implies op_external_qualified(#[trigger] ops.drop_last()[j]) by {
            assert(ops.drop_last()[j] == ops[j]);
        }
        lemma_check_ops_qualified(entries, ops.drop_last(), m);
        let e1 = check_ops(entries, ops.drop_last(), m).0;
        assert(op_external_qualified(ops[ops.len() - 1]));
        match ops.last().external_symbol() {
            Some((name, _)) => {
                if find_key(e1, name) is None {
                    lemma_insert_pair_qualified(e1, name, LabelTableEntryV { symbol: SemanticSymbolV { name, external: true }, addr: 0 });
                }
            },
            None => {},
        }
    }
}

proof fn lemma_check_lines_qualified(entries: Seq<(SymbolNameV, LabelTableEntryV)>, lines: Seq<SemanticReprV>, m: Seq<char>)
    requires
        all_qualified(entries),
        lines_externals_qualified(lines),
    ensures
        all_qualified(check_lines(entries, lines, m).0),
    decreases lines.len(),
{
    if lines.len() > 0 {
        assert forall|i: int| 0 <= i < lines.drop_last().len() implies line_externals_qualified(#[trigger] lines.drop_last()[i]) by {
            assert(lines.drop_last()[i] == lines[i]);
        }
        lemma_check_lines_qualified(entries, lines.drop_last(), m);
        let e1 = check_lines(entries, lines.drop_last(), m).0;
        assert(line_externals_qualified(lines[lines.len() - 1]));
        if let SemanticReprV::Instruction(ins) = lines.last() {
            lemma_check_ops_qualified(e1, ins.operands, m);
        }
    }
}

proof fn lemma_check_modules_qualified(entries: Seq<(SymbolNameV, LabelTableEntryV)>, mods: Seq<(Seq<char>, Seq<SemanticReprV>)>)
    requires
        all_qualified(entries),
        externals_qualified(mods),
    ensures
        all_qualified(check_modules(entries, mods).0),
    decreases mods.len(),
{
    if mods.len() > 0 {
        assert forall|k: int| 0 <= k < mods.drop_last().len() implies lines_externals_qualified((#[trigger] mods.drop_last()[k]).1) by {
            assert(mods.drop_last()[k] == mods[k]);
        }
        lemma_check_modules_qualified(entries, mods.drop_last());
        assert(lines_externals_qualified(mods[mods.len() - 1].1));
        lemma_check_lines_qualified(check_modules(entries, mods.drop_last()).0, mods.last().1, mods.last().0);
    }
}

/// Where every external symbol is named with a namespace, every label of
/// the label table is named with one.
pub proof fn lemma_label_names_qualified(mods: Seq<(Seq<char>, Seq<SemanticReprV>)>)
    requires
        externals_qualified(mods),
        spec_label_table(mods) is Ok,
    ensures
        all_qualified(spec_label_table(mods)->Ok_0),
{
    lemma_label_modules_qualified(Seq::empty(), 0, mods);
    lemma_check_modules_qualified(label_modules(Seq::empty(), 0, mods).0, mods);
}

proof fn lemma_lower_ops_externals(t: BindingTableV, ops: Seq<SemanticOperandV>, m: Seq<char>)
    requires
        forall|j: int| 0 <= j < ops.len() ==> op_external_qualified(#[trigger] ops[j]),
    ensures
        lower_ops(t, ops, m).0.len() == ops.len(),
        forall|j: int| 0 <= j < ops.len() ==> op_external_qualified(#[trigger] lower_ops(t, ops, m).0[j]),
    decreases ops.len(),
{
    if ops.len() > 0 {
        assert forall|j: int| 0 <= j < ops.drop_last().len() implies op_external_qualified(#[trigger] ops.drop_last()[j]) by {
            assert(ops.drop_last()[j] == ops[j]);
        }
        lemma_lower_ops_externals(t, ops.drop_last(), m);
        let front = lower_ops(t, ops.drop_last(), m).0;
        assert(op_external_qualified(ops[ops.len() - 1]));
        assert forall|j: int| 0 <= j < ops.len() implies op_external_qualified(#[trigger] lower_ops(t, ops, m).0[j]) by {
            if j < ops.len() - 1 {
                assert(lower_ops(t, ops, m).0[j] == front[j]);
            }
        }
    }
}

proof fn lemma_lower_lines_externals(t: BindingTableV, lines: Seq<SemanticReprV>, m: Seq<char>)
    requires
        lines_externals_qualified(lines),
    ensures
        lines_externals_qualified(lower_lines(t, lines, m).0),
    decreases lines.len(),
{
    if lines.len() > 0 {
        assert forall|i: int| 0 <= i < lines.drop_last().len() implies line_externals_qualified(#[trigger] lines.drop_last()[i]) by {
            assert(lines.drop_last()[i] == lines[i]);
        }
        lemma_lower_lines_externals(t, lines.drop_last(), m);
        lemma_lower_lines_len(t, lines.drop_last(), m);
        let front = lower_lines(t, lines.drop_last(), m).0;
        assert(line_externals_qualified(lines[lines.len() - 1]));
        if let SemanticReprV::Instruction(ins) = lines.last() {
            lemma_lower_ops_externals(t, ins.operands, m);
        }
        let r = lower_lines(t, lines, m).0;
        assert forall|i: int| 0 <= i < r.len() implies line_externals_qualified(#[trigger] r[i]) by {
            if i < lines.len() - 1 {
                assert(r[i] == front[i]);
            }
        }
    }
}

/// Lowering binding references keeps every external symbol named as it
/// was: where each had a namespace, each still has one.
pub proof fn lemma_lowering_keeps_externals_qualified(t: BindingTableV, mods: Seq<(Seq<char>, Seq<SemanticReprV>)>)
    requires
        externals_qualified(mods),
    ensures
        externals_qualified(lower_modules(t, mods).0),
    decreases mods.len(),
{
    if mods.len() > 0 {
        assert forall|k: int| 0 <= k < mods.drop_last().len() implies lines_externals_qualified((#[trigger] mods.drop_last()[k]).1) by {
            assert(mods.drop_last()[k] == mods[k]);
        }
        lemma_lowering_keeps_externals_qualified(t, mods.drop_last());
        lemma_lower_modules_len(t, mods.drop_last());
        assert(lines_externals_qualified(mods[mods.len() - 1].1));
        lemma_lower_lines_externals(t, mods.last().1, mods.last().0);
        let front = lower_modules(t, mods.drop_last()).0;
        let r = lower_modules(t, mods).0;
        assert forall|k: int| 0 <= k < r.len() implies lines_externals_qualified((#[trigger] r[k]).1) by {
            if k < mods.len() - 1 {
                assert(r[k] == front[k]);
            }
        }
    }
}

// ---------------------------------------------------------------------
// What a program must meet to be compiled.

fn literals_total(values: &Vec<SemanticLiteral>, base: usize) -> (r: Option<usize>)
    ensures
        match r {
            Some(s) => s == base + literals_size(values@.map_values(|l: SemanticLiteral| l@)),
            None => base + literals_size(values@.map_values(|l: SemanticLiteral| l@)) > usize::MAX,
        },
{
    let ghost vs = values@.map_values(|l: SemanticLiteral| l@);
    let mut total: usize = base;
    for j in 0..values.len()
        invariant
            vs == values@.map_values(|l: SemanticLiteral| l@),
            total == base + literals_size(vs.subrange(0, j as int)),
    {
        proof {
            lemma_modules_prefix_step(vs, j as int);
            assert(vs[j as int] == values@[j as int]@);
        }
        let s = values[j].size();
        if total > usize::MAX - s {
            proof {
                crate::semantic::lemma_literals_size_prefix(vs, j + 1);
            }
            return None;
        }
        total = total + s;
    }
    assert(vs.subrange(0, vs.len() as int) =~= vs);
    Some(total)
}

fn lines_data_size(lines: &Vec<SemanticRepr>, base: usize) -> (r: Option<usize>)
    ensures
        match r {
            Some(s) => s == base + defs_size(crate::semantic::reprs_view(lines@)),
            None => base + defs_size(crate::semantic::reprs_view(lines@)) > usize::MAX,
        },
{
    let ghost ls = crate::semantic::reprs_view(lines@);
    let mut total: usize = base;
    for i in 0..lines.len()
        invariant
            ls == crate::semantic::reprs_view(lines@),
            total == base + defs_size(ls.subrange(0, i as int)),
    {
        proof {
            lemma_modules_prefix_step(ls, i as int);
            assert(ls[i as int] == lines@[i as int]@);
        }
        if let SemanticRepr::BindingDef(def) = &lines[i] {
            match literals_total(&def.values, total) {
                Some(t) => {
                    total = t;
                },
                None => {
                    proof {
                        lemma_defs_size_prefix(ls, i + 1);
                    }
                    return None;
                },
            }
        }
    }
    assert(ls.subrange(0, ls.len() as int) =~= ls);
    Some(total)
}

fn lines_instr_count(lines: &Vec<SemanticRepr>, base: u64) -> (r: Option<u64>)
    ensures
        match r {
            Some(c) => c == base + instr_count(crate::semantic::reprs_view(lines@)),
            None => base + instr_count(crate::semantic::reprs_view(lines@)) > u64::MAX,
        },
{
    let ghost ls = crate::semantic::reprs_view(lines@);
    let mut count: u64 = base;
    for i in 0..lines.len()
        invariant
            ls == crate::semantic::reprs_view(lines@),
            count == base + instr_count(ls.subrange(0, i as int)),
    {
        proof {
            lemma_modules_prefix_step(ls, i as int);
            assert(ls[i as int] == lines@[i as int]@);
        }
        if let SemanticRepr::Instruction(_) = &lines[i] {
            if count == u64::MAX {
                proof {
                    lemma_instr_count_prefix(ls, i + 1);
                }
                return None;
            }
            count = count + 1;
        }
    }
    assert(ls.subrange(0, ls.len() as int) =~= ls);
    Some(count)
}

fn lines_externals_named(lines: &Vec<SemanticRepr>) -> (r: bool)
    ensures
        r == lines_externals_qualified(crate::semantic::reprs_view(lines@)),
{
    let ghost ls = crate::semantic::reprs_view(lines@);
    for i in 0..lines.len()
        invariant
            ls == crate::semantic::reprs_view(lines@),
            forall|k: int| 0 <= k < i ==> line_externals_qualified(#[trigger] ls[k]),
    {
        assert(ls[i as int] == lines@[i as int]@);
        if let SemanticRepr::Instruction(ins) = &lines[i] {
            let ghost ops = crate::semantic::operands_view(ins.operands@);
            let ghost lv = ls[i as int];
            assert(lv == SemanticReprV::Instruction(ins@));
            for j in 0..ins.operands.len()
                invariant
                    ops == crate::semantic::operands_view(ins.operands@),
                    lv == SemanticReprV::Instruction(ins@),
                    ls == crate::semantic::reprs_view(lines@),
                    0 <= i < ls.len(),
                    lv == ls[i as int],
                    forall|q: int| 0 <= q < j ==> op_external_qualified(#[trigger] ops[q]),
            {
                assert(ops[j as int] == ins.operands@[j as int]@);
                if let Some(u) = ins.operands[j].get_external_symbol() {
                    if u.name.namespace.is_none() {
                        assert(!op_external_qualified(ops[j as int]));
                        assert(ins@.operands == ops);
                        assert(!line_externals_qualified(lv));
                        assert(!lines_externals_qualified(ls));
                        return false;
                    }
                }
            }
        }
    }
    true
}

/// Returns whether the modules can be compiled within the machine's
/// limits: the packed definitions fit in the address space, the
/// instructions can be numbered with 64 bits, and every external symbol is
/// named with a namespace.
pub fn program_fits(modules: &IndexMap<String, Vec<SemanticRepr>>) -> (r: bool)
    ensures
        r == (modules_defs_size(module_sources(*modules)) <= usize::MAX
            && modules_instr_count(module_sources(*modules)) <= u64::MAX
            && externals_qualified(module_sources(*modules))),
{
    let ghost mods = module_sources(*modules);
    let n = module_map_len(modules);
    let mut size: usize = 0;
    let mut count: u64 = 0;
    for k in 0..n
        invariant
            n == mods.len(),
            mods == module_sources(*modules),
            size == modules_defs_size(mods.subrange(0, k as int)),
            count == modules_instr_count(mods.subrange(0, k as int)),
            externals_qualified(mods.subrange(0, k as int)),
    {
        proof {
            lemma_modules_prefix_step(mods, k as int);
        }
        let lines = match module_map_get_index(modules, k) {
            Some((_, lines)) => lines,
            None => {
                return false;
            },
        };
        match lines_data_size(lines, size) {
            Some(s) => {
                size = s;
            },
            None => {
                proof {
                    lemma_modules_defs_size_prefix(mods, k + 1);
                }
                return false;
            },
        }
        match lines_instr_count(lines, count) {
            Some(c) => {
                count = c;
            },
            None => {
                proof {
                    lemma_modules_instr_count_prefix(mods, k + 1);
                }
                return false;
            },
        }
        if !lines_externals_named(lines) {
            assert(!lines_externals_qualified(mods[k as int].1));
            return false;
        }
        proof {
            let p = mods.subrange(0, k + 1);
            assert forall|q: int| 0 <= q < p.len() implies lines_externals_qualified((#[trigger] p[q]).1) by {
                if q < k {
                    assert(p[q] == mods.subrange(0, k as int)[q]);
                }
            }
        }
    }
    assert(mods.subrange(0, n as int) =~= mods);
    true
}

// ---------------------------------------------------------------------
// Properties of the passes.

/// Whether the operand is a constant dereference of a binding.
pub open spec fn is_const_deref(op: SemanticOperandV) -> bool {
    op matches SemanticOperandV::Immediate(SemanticImmediateTypeV::ConstDerefBinding(_))
}

/// Whether the line holds no constant dereference.
pub open spec fn line_free_of_const_deref(line: SemanticReprV) -> bool {
    match line {
        SemanticReprV::Instruction(ins) => forall|j: int| 0 <= j < ins.operands.len() ==> !is_const_deref(#[trigger] ins.operands[j]),
        _ => true,
    }
}

proof fn lemma_lower_ops_free(t: BindingTableV, ops: Seq<SemanticOperandV>, m: Seq<char>)
    requires
        lower_ops(t, ops, m).1 is None,
    ensures
        lower_ops(t, ops, m).0.len() == ops.len(),
        forall|j: int| 0 <= j < ops.len() ==> !is_const_deref(#[trigger] lower_ops(t, ops, m).0[j]),
    decreases ops.len(),
{
    if ops.len() > 0 {
        lemma_lower_ops_free(t, ops.drop_last(), m);
        let front = lower_ops(t, ops.drop_last(), m).0;
        assert forall|j: int| 0 <= j < ops.len() implies !is_const_deref(#[trigger] lower_ops(t, ops, m).0[j]) by {
            if j < ops.len() - 1 {
                assert(lower_ops(t, ops, m).0[j] == front[j]);
            }
        }
    }
}

/// Inlining that meets no error leaves no constant dereference: each is
/// replaced by a literal.
pub proof fn lemma_lowering_removes_const_derefs(t: BindingTableV, lines: Seq<SemanticReprV>, m: Seq<char>)
    requires
        lower_lines(t, lines, m).1 is None,
    ensures
        lower_lines(t, lines, m).0.len() == lines.len(),
        forall|i: int| 0 <= i < lines.len() ==> line_free_of_const_deref(#[trigger] lower_lines(t, lines, m).0[i]),
    decreases lines.len(),
{
    if lines.len() > 0 {
        lemma_lowering_removes_const_derefs(t, lines.drop_last(), m);
        let front = lower_lines(t, lines.drop_last(), m).0;
        if let SemanticReprV::Instruction(ins) = lines.last() {
            lemma_lower_ops_free(t, ins.operands, m);
        }
        assert forall|i: int| 0 <= i < lines.len() implies line_free_of_const_deref(#[trigger] lower_lines(t, lines, m).0[i]) by {
            if i < lines.len() - 1 {
                assert(lower_lines(t, lines, m).0[i] == front[i]);
            }
        }
    }
}

/// Whether the operand holds no binding reference that lowering replaces:
/// it is no constant dereference, and a reference or dereference of a
/// binding of module `m` names an external binding of `t`, whose address
/// is not known to the compiler.
pub open spec fn binding_ref_lowered(t: BindingTableV, op: SemanticOperandV, m: Seq<char>) -> bool {
    match op {
        SemanticOperandV::Immediate(SemanticImmediateTypeV::ConstDerefBinding(_)) => false,
        SemanticOperandV::Immediate(SemanticImmediateTypeV::Binding(sym, _)) =>
            spec_entry(t, sym.name.with_current_module(m)) matches Some(e) && e.alloc is Extern,
        SemanticOperandV::Deref(d) => match d.kind {
            SemanticDerefKindV::Binding(sym) =>
                spec_entry(t, sym.name.with_current_module(m)) matches Some(e) && e.alloc is Extern,
            _ => true,
        },
        _ => true,
    }
}

/// Whether every operand of the line, if it is an instruction, holds no
/// binding reference that lowering replaces.
pub open spec fn line_binding_refs_lowered(t: BindingTableV, line: SemanticReprV, m: Seq<char>) -> bool {
    match line {
        SemanticReprV::Instruction(ins) => forall|j: int|
            0 <= j < ins.operands.len() ==> binding_ref_lowered(t, #[trigger] ins.operands[j], m),
        _ => true,
    }
}

proof fn lemma_lower_ops_addressed(t: BindingTableV, ops: Seq<SemanticOperandV>, m: Seq<char>)
    requires
        lower_ops(t, ops, m).1 is None,
    ensures
        lower_ops(t, ops, m).0.len() == ops.len(),
        forall|j: int| 0 <= j < ops.len() ==> binding_ref_lowered(t, #[trigger] lower_ops(t, ops, m).0[j], m),
    decreases ops.len(),
{
    if ops.len() > 0 {
        lemma_lower_ops_addressed(t, ops.drop_last(), m);
        let front = lower_ops(t, ops.drop_last(), m).0;
        assert forall|j: int| 0 <= j < ops.len() implies binding_ref_lowered(t, #[trigger] lower_ops(t, ops, m).0[j], m) by {
            if j < ops.len() - 1 {
                assert(lower_ops(t, ops, m).0[j] == front[j]);
            }
        }
    }
}

/// Lowering that meets no error replaces every binding reference but those
/// to external bindings: no constant dereference remains, and every
/// remaining reference or dereference of a binding names an external
/// binding of the table.
pub proof fn lemma_lowering_replaces_binding_references(t: BindingTableV, lines: Seq<SemanticReprV>, m: Seq<char>)
    requires
        lower_lines(t, lines, m).1 is None,
    ensures
        lower_lines(t, lines, m).0.len() == lines.len(),
        forall|i: int| 0 <= i < lines.len() ==> line_binding_refs_lowered(t, #[trigger] lower_lines(t, lines, m).0[i], m),
    decreases lines.len(),
{
    if lines.len() > 0 {
        lemma_lowering_replaces_binding_references(t, lines.drop_last(), m);
        let front = lower_lines(t, lines.drop_last(), m).0;
        if let SemanticReprV::Instruction(ins) = lines.last() {
            lemma_lower_ops_addressed(t, ins.operands, m);
        }
        assert forall|i: int| 0 <= i < lines.len() implies line_binding_refs_lowered(t, #[trigger] lower_lines(t, lines, m).0[i], m) by {
            if i < lines.len() - 1 {
                assert(lower_lines(t, lines, m).0[i] == front[i]);
            }
        }
    }
}

/// Lowering all modules without error, as `parse_and_lower` does on
/// success, leaves in every module no constant dereference and no binding
/// reference but those to external bindings.
pub proof fn lemma_lowered_modules_replace_binding_references(t: BindingTableV, mods: Seq<(Seq<char>, Seq<SemanticReprV>)>)
    requires
        lower_modules(t, mods).1 is None,
    ensures
        lower_modules(t, mods).0.len() == mods.len(),
        forall|k: int| 0 <= k < mods.len() ==> (#[trigger] lower_modules(t, mods).0[k]).0 == mods[k].0,
        forall|k: int, i: int| 0 <= k < mods.len() && 0 <= i < lower_modules(t, mods).0[k].1.len() ==>
            line_binding_refs_lowered(t, #[trigger] lower_modules(t, mods).0[k].1[i], mods[k].0),
    decreases mods.len(),
{
    if mods.len() > 0 {
        let (front, e) = lower_modules(t, mods.drop_last());
        assert(e is None);
        lemma_lowered_modules_replace_binding_references(t, mods.drop_last());
        let last = mods.last();
        lemma_lowering_replaces_binding_references(t, last.1, last.0);
        let r = lower_modules(t, mods).0;
        assert forall|k: int| 0 <= k < mods.len() implies (#[trigger] r[k]).0 == mods[k].0 by {
            if k < mods.len() - 1 {
                assert(r[k] == front[k]);
            }
        }
        assert forall|k: int, i: int| 0 <= k < mods.len() && 0 <= i < r[k].1.len() implies
            line_binding_refs_lowered(t, #[trigger] r[k].1[i], mods[k].0) by {
            if k < mods.len() - 1 {
                assert(r[k] == front[k]);
                assert(mods.drop_last()[k] == mods[k]);
            }
        }
    }
}

/// Whether the operand, if it is a label, names an entry of `entries`
/// under its name in module `m`.
pub open spec fn label_resolved(entries: Seq<(SymbolNameV, LabelTableEntryV)>, op: SemanticOperandV, m: Seq<char>) -> bool {
    match op {
        SemanticOperandV::Immediate(SemanticImmediateTypeV::Label(sym, _)) =>
            find_key(entries, sym.name.with_current_module(m)) is Some,
        _ => true,
    }
}

/// Whether every label operand among `ops` names an entry of `entries`.
pub open spec fn ops_labels_resolved(entries: Seq<(SymbolNameV, LabelTableEntryV)>, ops: Seq<SemanticOperandV>, m: Seq<char>) -> bool {
    forall|j: int| 0 <= j < ops.len() ==> label_resolved(entries, #[trigger] ops[j], m)
}

/// Whether every label operand of the line names an entry of `entries`.
pub open spec fn line_labels_resolved(entries: Seq<(SymbolNameV, LabelTableEntryV)>, line: SemanticReprV, m: Seq<char>) -> bool {
    match line {
        SemanticReprV::Instruction(ins) => ops_labels_resolved(entries, ins.operands, m),
        _ => true,
    }
}

/// Whether every label operand among `lines` of module `m` names an entry
/// of `entries`, under its name in `m`.
pub open spec fn labels_resolved(entries: Seq<(SymbolNameV, LabelTableEntryV)>, lines: Seq<SemanticReprV>, m: Seq<char>) -> bool {
    forall|i: int| 0 <= i < lines.len() ==> line_labels_resolved(entries, #[trigger] lines[i], m)
}

/// Whether the operand, if it is a label of module `m`, names a label of
/// `entries` that is defined outside the sources.
pub open spec fn label_left_external(entries: Seq<(SymbolNameV, LabelTableEntryV)>, op: SemanticOperandV, m: Seq<char>) -> bool {
    match op {
        SemanticOperandV::Immediate(SemanticImmediateTypeV::Label(sym, _)) =>
            find_key(entries, sym.name.with_current_module(m)) matches Some(i) && entries[i].1.symbol.external,
        _ => true,
    }
}

/// Whether every label operand left in the line names an external label.
pub open spec fn line_labels_left_external(entries: Seq<(SymbolNameV, LabelTableEntryV)>, line: SemanticReprV, m: Seq<char>) -> bool {
    match line {
        SemanticReprV::Instruction(ins) => forall|j: int|
            0 <= j < ins.operands.len() ==> label_left_external(entries, #[trigger] ins.operands[j], m),
        _ => true,
    }
}

/// Once the label table is built, inlining the labels replaces every label
/// operand defined in the sources by its address: only labels defined
/// outside the sources remain.
pub proof fn lemma_label_inlining_leaves_only_external_labels(mods: Seq<(Seq<char>, Seq<SemanticReprV>)>)
    requires
        spec_label_table(mods) is Ok,
    ensures
        forall|k: int, i: int| #![trigger lower_label_modules(spec_label_table(mods)->Ok_0, mods)[k].1[i]]
            0 <= k < mods.len() && 0 <= i < mods[k].1.len() ==>
            line_labels_left_external(
                spec_label_table(mods)->Ok_0,
                lower_label_modules(spec_label_table(mods)->Ok_0, mods)[k].1[i],
                mods[k].0,
            ),
{
    let t = spec_label_table(mods)->Ok_0;
    lemma_label_references_resolve(mods);
    assert forall|k: int, i: int| 0 <= k < mods.len() && 0 <= i < mods[k].1.len() implies
        line_labels_left_external(t, #[trigger] lower_label_modules(t, mods)[k].1[i], mods[k].0) by {
        let m = mods[k].0;
        let line = mods[k].1[i];
        assert(labels_resolved(t, mods[k].1, m));
        assert(line_labels_resolved(t, line, m));
        assert(lower_label_modules(t, mods)[k].1[i] == lower_label_line(t, line, m));
        if let SemanticReprV::Instruction(ins) = line {
            let lowered = ins.operands.map_values(|o: SemanticOperandV| lower_label_operand(t, o, m));
            assert forall|j: int| 0 <= j < ins.operands.len() implies label_left_external(t, #[trigger] lowered[j], m) by {
                assert(label_resolved(t, ins.operands[j], m));
            }
        }
    }
}

/// Inserting keeps every key that was there.
proof fn lemma_insert_pair_keeps<K, V>(s: Seq<(K, V)>, k: K, v: V, q: K)
    requires
        find_key(s, q) is Some,
    ensures
        find_key(insert_pair(s, k, v), q) is Some,
{
    lemma_find_key(s, q);
    let i = find_key(s, q)->0;
    let s2 = insert_pair(s, k, v);
    lemma_find_key(s2, q);
    if find_key(s, k) is Some {
        lemma_find_key(s, k);
        assert(s2[i].0 == q);
    } else {
        assert(s2[i] == s[i]);
    }
}

pub open spec fn entries_grow(a: Seq<(SymbolNameV, LabelTableEntryV)>, b: Seq<(SymbolNameV, LabelTableEntryV)>) -> bool {
    forall|q: SymbolNameV| find_key(a, q) is Some ==> #[trigger] find_key(b, q) is Some
}

proof fn lemma_check_operand_grows(entries: Seq<(SymbolNameV, LabelTableEntryV)>, op: SemanticOperandV, m: Seq<char>)
    ensures
        entries_grow(entries, check_operand(entries, op, m).0),
        check_operand(entries, op, m).1 is None ==> label_resolved(check_operand(entries, op, m).0, op, m),
{
    assert forall|q: SymbolNameV| find_key(entries, q) is Some implies #[trigger] find_key(check_operand(entries, op, m).0, q) is Some by {
        if let Some((name, _)) = op.external_symbol() {
            if find_key(entries, name) is None {
                lemma_insert_pair_keeps(entries, name, LabelTableEntryV { symbol: SemanticSymbolV { name, external: true }, addr: 0 }, q);
            }
        }
    }
}

proof fn lemma_check_ops_resolves(entries: Seq<(SymbolNameV, LabelTableEntryV)>, ops: Seq<SemanticOperandV>, m: Seq<char>)
    requires
        check_ops(entries, ops, m).1 is None,
    ensures
        entries_grow(entries, check_ops(entries, ops, m).0),
        forall|e: Seq<(SymbolNameV, LabelTableEntryV)>| entries_grow(check_ops(entries, ops, m).0, e)
            ==> ops_labels_resolved(e, ops, m),
    decreases ops.len(),
{
    if ops.len() > 0 {
        lemma_check_ops_resolves(entries, ops.drop_last(), m);
        let e1 = check_ops(entries, ops.drop_last(), m).0;
        lemma_check_operand_grows(e1, ops.last(), m);
        let e2 = check_ops(entries, ops, m).0;
        assert forall|e: Seq<(SymbolNameV, LabelTableEntryV)>| entries_grow(e2, e) implies ops_labels_resolved(e, ops, m) by {
            assert(entries_grow(e1, e));
            assert(ops_labels_resolved(e, ops.drop_last(), m));
            assert forall|j: int| 0 <= j < ops.len() implies label_resolved(e, #[trigger] ops[j], m) by {
                if j < ops.len() - 1 {
                    assert(ops.drop_last()[j] == ops[j]);
                } else {
                    assert(label_resolved(e2, ops.last(), m));
                }
            }
        }
    }
}

proof fn lemma_check_lines_resolves(entries: Seq<(SymbolNameV, LabelTableEntryV)>, lines: Seq<SemanticReprV>, m: Seq<char>)
    requires
        check_lines(entries, lines, m).1 is None,
    ensures
        entries_grow(entries, check_lines(entries, lines, m).0),
        forall|e: Seq<(SymbolNameV, LabelTableEntryV)>| entries_grow(check_lines(entries, lines, m).0, e)
            ==> labels_resolved(e, lines, m),
    decreases lines.len(),
{
    if lines.len() > 0 {
        let front = lines.drop_last();
        lemma_check_lines_resolves(entries, front, m);
        let e1 = check_lines(entries, front, m).0;
        let e2 = check_lines(entries, lines, m).0;
        if let SemanticReprV::Instruction(ins) = lines.last() {
            lemma_check_ops_resolves(e1, ins.operands, m);
        }
        assert(entries_grow(e1, e2));
        assert forall|e: Seq<(SymbolNameV, LabelTableEntryV)>| entries_grow(e2, e) implies labels_resolved(e, lines, m) by {
            assert(entries_grow(e1, e));
            assert(labels_resolved(e, front, m));
            assert forall|i: int| 0 <= i < lines.len() implies line_labels_resolved(e, #[trigger] lines[i], m) by {
                if i < lines.len() - 1 {
                    assert(front[i] == lines[i]);
                }
            }
        }
    }
}

proof fn lemma_check_modules_resolves(entries: Seq<(SymbolNameV, LabelTableEntryV)>, mods: Seq<(Seq<char>, Seq<SemanticReprV>)>)
    requires
        check_modules(entries, mods).1 is None,
    ensures
        entries_grow(entries, check_modules(entries, mods).0),
        forall|e: Seq<(SymbolNameV, LabelTableEntryV)>, k: int| entries_grow(check_modules(entries, mods).0, e) && 0 <= k < mods.len()
            ==> #[trigger] labels_resolved(e, mods[k].1, mods[k].0),
    decreases mods.len(),
{
    if mods.len() > 0 {
        let front = mods.drop_last();
        lemma_check_modules_resolves(entries, front);
        let e1 = check_modules(entries, front).0;
        lemma_check_lines_resolves(e1, mods.last().1, mods.last().0);
        let e2 = check_modules(entries, mods).0;
        assert forall|e: Seq<(SymbolNameV, LabelTableEntryV)>, k: int| entries_grow(e2, e) && 0 <= k < mods.len()
            implies #[trigger] labels_resolved(e, mods[k].1, mods[k].0) by {
            assert(entries_grow(e1, e));
            if k < mods.len() - 1 {
                assert(front[k] == mods[k]);
            }
        }
    }
}

/// When the label table is built, every label operand of every module
/// names one of its labels, under its name in that module.
pub proof fn lemma_label_references_resolve(mods: Seq<(Seq<char>, Seq<SemanticReprV>)>)
    requires
        spec_label_table(mods) is Ok,
    ensures
        forall|k: int| 0 <= k < mods.len() ==> labels_resolved(spec_label_table(mods)->Ok_0, (#[trigger] mods[k]).1, mods[k].0),
{
    let e1 = label_modules(Seq::empty(), 0, mods).0;
    lemma_check_modules_resolves(e1, mods);
    let e2 = check_modules(e1, mods).0;
    assert(entries_grow(e2, e2));
}


/// Whether the statically allocated bindings lie side by side from
/// offset zero, in order: each one's offset is the total size of those
/// before it, and the counter is the total size of all of them.
pub open spec fn static_layout(t: BindingTableV) -> bool {
    &&& t.counter == static_size(t.entries, t.entries.len())
    &&& forall|k: int| 0 <= k < t.entries.len() ==> match (#[trigger] t.entries[k]).1.alloc {
        BindingAllocationType::Static(offset) => offset as nat == static_size(t.entries, k as nat),
        _ => true,
    }
}

proof fn lemma_static_size_push(entries: Seq<(SymbolNameV, BindingTableEntryV)>, x: (SymbolNameV, BindingTableEntryV), n: nat)
    requires
        n <= entries.len(),
    ensures
        static_size(entries.push(x), n) == static_size(entries, n),
    decreases n,
{
    if n > 0 {
        lemma_static_size_push(entries, x, (n - 1) as nat);
        assert(entries.push(x)[n - 1] == entries[n - 1]);
    }
}

/// Adding a binding at the end keeps the layout, if a static one is
/// placed at the counter and the counter grows by its size.
proof fn lemma_layout_push(t: BindingTableV, name: SymbolNameV, e: BindingTableEntryV, counter: nat)
    requires
        static_layout(t),
        find_key(t.entries, name) is None,
        match e.alloc {
            BindingAllocationType::Static(offset) => offset as nat == t.counter && counter == t.counter + literals_size(e.def.values),
            _ => counter == t.counter,
        },
    ensures
        static_layout(BindingTableV { entries: insert_pair(t.entries, name, e), counter, ..t }),
{
    let s2 = t.entries.push((name, e));
    assert(insert_pair(t.entries, name, e) == s2);
    lemma_static_size_push(t.entries, (name, e), t.entries.len());
    assert forall|k: int| 0 <= k < s2.len() implies match (#[trigger] s2[k]).1.alloc {
        BindingAllocationType::Static(offset) => offset as nat == static_size(s2, k as nat),
        _ => true,
    } by {
        if k < t.entries.len() {
            assert(s2[k] == t.entries[k]);
            lemma_static_size_push(t.entries, (name, e), k as nat);
        }
    }
}

proof fn lemma_pre_operand_layout(t: BindingTableV, op: SemanticOperandV, m: Seq<char>)
    requires
        static_layout(t),
    ensures
        static_layout(pre_operand(t, op, m).0),
{
    if let Some((name, _)) = op.external_symbol() {
        if find_key(t.entries, name) is None {
            lemma_layout_push(t, name, BindingTableEntryV { def: extern_def(name), alloc: BindingAllocationType::Extern }, t.counter);
        }
    }
}

proof fn lemma_pre_operands_layout(t: BindingTableV, ops: Seq<SemanticOperandV>, m: Seq<char>)
    requires
        static_layout(t),
    ensures
        static_layout(pre_operands(t, ops, m).0),
    decreases ops.len(),
{
    if ops.len() > 0 {
        lemma_pre_operands_layout(t, ops.drop_last(), m);
        lemma_pre_operand_layout(pre_operands(t, ops.drop_last(), m).0, ops.last(), m);
    }
}

proof fn lemma_pre_lines_layout(t: BindingTableV, lines: Seq<SemanticReprV>, m: Seq<char>)
    requires
        static_layout(t),
    ensures
        static_layout(pre_lines(t, lines, m).0),
    decreases lines.len(),
{
    if lines.len() > 0 {
        lemma_pre_lines_layout(t, lines.drop_last(), m);
        let t1 = pre_lines(t, lines.drop_last(), m).0;
        if let SemanticReprV::Instruction(ins) = lines.last() {
            lemma_pre_operands_layout(t1, ins.operands, m);
        }
    }
}

proof fn lemma_pre_modules_layout(t: BindingTableV, mods: Seq<(Seq<char>, Seq<SemanticReprV>)>)
    requires
        static_layout(t),
    ensures
        static_layout(pre_modules(t, mods).0),
    decreases mods.len(),
{
    if mods.len() > 0 {
        lemma_pre_modules_layout(t, mods.drop_last());
        lemma_pre_lines_layout(pre_modules(t, mods.drop_last()).0, mods.last().1, mods.last().0);
    }
}

proof fn lemma_defs_size_drop_last(lines: Seq<SemanticReprV>)
    requires
        lines.len() > 0,
    ensures
        defs_size(lines) == defs_size(lines.drop_last()) + match lines.last() {
            SemanticReprV::BindingDef(def) => literals_size(def.values),
            _ => 0,
        },
{
}

proof fn lemma_append_from_layout(t: BindingTableV, open: bool, lines: Seq<SemanticReprV>, m: Seq<char>)
    requires
        static_layout(t),
        t.counter + defs_size(lines) <= usize::MAX,
    ensures
        static_layout(append_from(t, open, lines, m).0),
    decreases lines.len(),
{
    if lines.len() > 0 {
        lemma_defs_size_drop_last(lines);
        lemma_append_from_layout(t, open, lines.drop_last(), m);
        lemma_append_counter(t, open, lines.drop_last(), m);
        let (t1, o1, e) = append_from(t, open, lines.drop_last(), m);
        if e is None {
            if let SemanticReprV::BindingDef(def) = lines.last() {
                let s = qualified(def.name, m);
                if o1 && find_key(t1.entries, s) is None {
                    if !spec_can_inline(t1, s) {
                        lemma_layout_push(
                            t1,
                            s,
                            BindingTableEntryV { def, alloc: BindingAllocationType::Static(t1.counter as usize) },
                            t1.counter + literals_size(def.values),
                        );
                    } else {
                        lemma_layout_push(t1, s, BindingTableEntryV { def, alloc: BindingAllocationType::Inline }, t1.counter);
                    }
                }
            }
        }
    }
}

proof fn lemma_append_modules_layout(t: BindingTableV, mods: Seq<(Seq<char>, Seq<SemanticReprV>)>)
    requires
        static_layout(t),
        t.counter + modules_defs_size(mods) <= usize::MAX,
    ensures
        static_layout(append_modules(t, mods).0),
        append_modules(t, mods).0.counter <= t.counter + modules_defs_size(mods),
    decreases mods.len(),
{
    if mods.len() > 0 {
        lemma_append_modules_layout(t, mods.drop_last());
        let t1 = append_modules(t, mods.drop_last()).0;
        lemma_append_from_layout(t1, false, mods.last().1, mods.last().0);
        lemma_append_counter(t1, false, mods.last().1, mods.last().0);
    }
}

/// In a binding table built from modules whose definitions fit in the
/// address space, the statically allocated bindings lie side by side from
/// offset zero, in order of definition, and the counter is the size of
/// the data section.
pub proof fn lemma_binding_table_layout(mods: Seq<(Seq<char>, Seq<SemanticReprV>)>)
    requires
        modules_defs_size(mods) <= usize::MAX,
        spec_binding_table(mods) is Ok,
    ensures
        static_layout(spec_binding_table(mods)->Ok_0),
        spec_binding_table(mods)->Ok_0.counter <= modules_defs_size(mods),
{
    let t0 = empty_binding_table();
    assert(static_layout(t0));
    lemma_pre_modules_layout(t0, mods);
    lemma_pre_modules_counter(t0, mods);
    lemma_append_modules_layout(pre_modules(t0, mods).0, mods);
}


// ---------------------------------------------------------------------
// Inlining always finds a value.

/// The definitions among `lines` of module `m`, in order, each under its
/// name in `m`.
pub open spec fn defs_of_lines(lines: Seq<SemanticReprV>, m: Seq<char>) -> Seq<(SymbolNameV, SemanticBindingDefV)>
    decreases lines.len(),
{
    if lines.len() == 0 {
        Seq::empty()
    } else {
        defs_of_lines(lines.drop_last(), m) + match lines.last() {
            SemanticReprV::BindingDef(def) => seq![(qualified(def.name, m), def)],
            _ => Seq::empty(),
        }
    }
}

/// The definitions of all modules, in order.
pub open spec fn defs_of_modules(mods: Seq<(Seq<char>, Seq<SemanticReprV>)>) -> Seq<(SymbolNameV, SemanticBindingDefV)>
    decreases mods.len(),
{
    if mods.len() == 0 {
        Seq::empty()
    } else {
        defs_of_modules(mods.drop_last()) + defs_of_lines(mods.last().1, mods.last().0)
    }
}

/// The last definition of `s` among `d`, if any.
pub open spec fn last_def(d: Seq<(SymbolNameV, SemanticBindingDefV)>, s: SymbolNameV) -> Option<SemanticBindingDefV>
    decreases d.len(),
{
    if d.len() == 0 {
        None
    } else if d.last().0 == s {
        Some(d.last().1)
    } else {
        last_def(d.drop_last(), s)
    }
}

/// What the first pass keeps true, with `d` the definitions read so far:
/// every allocated binding is an external one; an external binding's
/// recorded definition is the external one; any other recorded definition
/// is the last one read; and a binding dereferenced as a constant has a
/// definition with one value among those read.
pub open spec fn pre_inv(t: BindingTableV, d: Seq<(SymbolNameV, SemanticBindingDefV)>) -> bool {
    &&& forall|k: int| 0 <= k < t.entries.len() ==> (#[trigger] t.entries[k]).1
        == (BindingTableEntryV { def: extern_def(t.entries[k].0), alloc: BindingAllocationType::Extern })
    &&& forall|s: SymbolNameV| #[trigger] find_key(t.entries, s) is Some ==> t.tentative.contains_key(s)
        && t.tentative[s] == extern_def(s)
    &&& forall|s: SymbolNameV| find_key(t.entries, s) is None && #[trigger] t.tentative.contains_key(s)
        ==> last_def(d, s) == Some(t.tentative[s])
    &&& forall|s: SymbolNameV| #[trigger] t.const_deref.contains_key(s) && t.const_deref[s]
        ==> exists|k: int| 0 <= k < d.len() && (#[trigger] d[k]).0 == s && d[k].1.values.len() == 1
}

/// Whether every binding marked as dereferenced as a constant in `a` is
/// still marked so in `b`.
pub open spec fn const_marks_kept(a: BindingTableV, b: BindingTableV) -> bool {
    forall|s: SymbolNameV| #[trigger] a.const_deref.contains_key(s) && a.const_deref[s]
        ==> b.const_deref.contains_key(s) && b.const_deref[s]
}

/// The name a constant dereference in module `m` refers to.
pub open spec fn const_deref_name(op: SemanticOperandV, m: Seq<char>) -> SymbolNameV {
    match op {
        SemanticOperandV::Immediate(SemanticImmediateTypeV::ConstDerefBinding(sym)) => sym.name.with_current_module(m),
        _ => SymbolNameV { name: Seq::empty(), namespace: None },
    }
}

/// Whether the constant dereferences among `ops` of module `m` are all
/// marked in `t`.
pub open spec fn ops_marked(t: BindingTableV, ops: Seq<SemanticOperandV>, m: Seq<char>) -> bool {
    forall|j: int| 0 <= j < ops.len() && is_const_deref(#[trigger] ops[j])
        ==> t.const_deref.contains_key(const_deref_name(ops[j], m)) && t.const_deref[const_deref_name(ops[j], m)]
}

/// Whether the constant dereferences among `lines` of module `m` are all
/// marked in `t`.
pub open spec fn lines_marked(t: BindingTableV, lines: Seq<SemanticReprV>, m: Seq<char>) -> bool {
    forall|i: int| 0 <= i < lines.len() ==> match #[trigger] lines[i] {
        SemanticReprV::Instruction(ins) => ops_marked(t, ins.operands, m),
        _ => true,
    }
}

proof fn lemma_last_def_found(d: Seq<(SymbolNameV, SemanticBindingDefV)>, s: SymbolNameV)
    requires
        last_def(d, s) is Some,
    ensures
        exists|k: int| 0 <= k < d.len() && (#[trigger] d[k]).0 == s && d[k].1 == last_def(d, s)->0,
    decreases d.len(),
{
    if d.last().0 == s {
        assert(d[d.len() - 1].0 == s);
    } else {
        lemma_last_def_found(d.drop_last(), s);
        let k = choose|k: int| 0 <= k < d.drop_last().len() && (#[trigger] d.drop_last()[k]).0 == s
            && d.drop_last()[k].1 == last_def(d.drop_last(), s)->0;
        assert(d[k] == d.drop_last()[k]);
    }
}

proof fn lemma_find_key_push<K, V>(s: Seq<(K, V)>, k: K, v: V, q: K)
    requires
        find_key(s, k) is None,
    ensures
        find_key(s.push((k, v)), q) == if find_key(s, q) is Some { find_key(s, q) } else if q == k {
            Some(s.len() as int)
        } else {
            None
        },
{
    assert(s.push((k, v)).drop_last() =~= s);
}

proof fn lemma_pre_operand_inv(t: BindingTableV, d: Seq<(SymbolNameV, SemanticBindingDefV)>, op: SemanticOperandV, m: Seq<char>)
    requires
        pre_inv(t, d),
        pre_operand(t, op, m).1 is None,
    ensures
        pre_inv(pre_operand(t, op, m).0, d),
        const_marks_kept(t, pre_operand(t, op, m).0),
        is_const_deref(op) ==> pre_operand(t, op, m).0.const_deref.contains_key(const_deref_name(op, m))
            && pre_operand(t, op, m).0.const_deref[const_deref_name(op, m)],
{
    let t1 = match op.external_symbol() {
        Some((name, _)) => discover_extern(t, name),
        None => t,
    };
    if let Some((name, _)) = op.external_symbol() {
        if find_key(t.entries, name) is None {
            let e = BindingTableEntryV { def: extern_def(name), alloc: BindingAllocationType::Extern };
            assert(insert_pair(t.entries, name, e) == t.entries.push((name, e)));
            assert forall|q: SymbolNameV| #[trigger] find_key(t1.entries, q) is Some implies t1.tentative.contains_key(q)
                && t1.tentative[q] == extern_def(q) by {
                lemma_find_key_push(t.entries, name, e, q);
            }
            assert forall|q: SymbolNameV| find_key(t1.entries, q) is None && #[trigger] t1.tentative.contains_key(q)
                implies last_def(d, q) == Some(t1.tentative[q]) by {
                lemma_find_key_push(t.entries, name, e, q);
            }
            assert forall|k: int| 0 <= k < t1.entries.len() implies (#[trigger] t1.entries[k]).1
                == (BindingTableEntryV { def: extern_def(t1.entries[k].0), alloc: BindingAllocationType::Extern }) by {
                if k < t.entries.len() {
                    assert(t1.entries[k] == t.entries[k]);
                }
            }
        }
    }
    assert(pre_inv(t1, d));
    let t2 = pre_operand(t, op, m).0;
    match op {
        SemanticOperandV::Immediate(SemanticImmediateTypeV::ConstDerefBinding(sym)) => {
            let s = sym.name.with_current_module(m);
            if find_key(t1.entries, s) is Some {
                assert(t1.tentative[s] == extern_def(s));
                assert(false);
            }
            lemma_last_def_found(d, s);
            assert forall|q: SymbolNameV| #[trigger] t2.const_deref.contains_key(q) && t2.const_deref[q]
                implies exists|k: int| 0 <= k < d.len() && (#[trigger] d[k]).0 == q && d[k].1.values.len() == 1 by {
                if q != s {
                    assert(t1.const_deref.contains_key(q) && t1.const_deref[q]);
                }
            }
        },
        _ => {},
    }
}

proof fn lemma_pre_operands_inv(t: BindingTableV, d: Seq<(SymbolNameV, SemanticBindingDefV)>, ops: Seq<SemanticOperandV>, m: Seq<char>)
    requires
        pre_inv(t, d),
        pre_operands(t, ops, m).1 is None,
    ensures
        pre_inv(pre_operands(t, ops, m).0, d),
        const_marks_kept(t, pre_operands(t, ops, m).0),
        ops_marked(pre_operands(t, ops, m).0, ops, m),
    decreases ops.len(),
{
    if ops.len() > 0 {
        let front = ops.drop_last();
        lemma_pre_operands_inv(t, d, front, m);
        let t1 = pre_operands(t, front, m).0;
        lemma_pre_operand_inv(t1, d, ops.last(), m);
        let t2 = pre_operands(t, ops, m).0;
        assert forall|j: int| 0 <= j < ops.len() && is_const_deref(#[trigger] ops[j])
            implies t2.const_deref.contains_key(const_deref_name(ops[j], m)) && t2.const_deref[const_deref_name(ops[j], m)] by {
            if j < ops.len() - 1 {
                assert(front[j] == ops[j]);
            }
        }
    }
}

proof fn lemma_pre_lines_inv(t: BindingTableV, d: Seq<(SymbolNameV, SemanticBindingDefV)>, lines: Seq<SemanticReprV>, m: Seq<char>)
    requires
        pre_inv(t, d),
        pre_lines(t, lines, m).1 is None,
    ensures
        pre_inv(pre_lines(t, lines, m).0, d + defs_of_lines(lines, m)),
        const_marks_kept(t, pre_lines(t, lines, m).0),
        lines_marked(pre_lines(t, lines, m).0, lines, m),
    decreases lines.len(),
{
    if lines.len() == 0 {
        assert(d + defs_of_lines(lines, m) =~= d);
    } else {
        let front = lines.drop_last();
        lemma_pre_lines_inv(t, d, front, m);
        let t1 = pre_lines(t, front, m).0;
        let d1 = d + defs_of_lines(front, m);
        let t2 = pre_lines(t, lines, m).0;
        let d2 = d + defs_of_lines(lines, m);
        match lines.last() {
            SemanticReprV::BindingDef(def) => {
                let s = qualified(def.name, m);
                assert(d2 =~= d1.push((s, def)));
                assert forall|q: SymbolNameV| find_key(t2.entries, q) is None && #[trigger] t2.tentative.contains_key(q)
                    implies last_def(d2, q) == Some(t2.tentative[q]) by {
                    assert(d2.drop_last() =~= d1);
                }
                assert forall|q: SymbolNameV| #[trigger] t2.const_deref.contains_key(q) && t2.const_deref[q]
                    implies exists|k: int| 0 <= k < d2.len() && (#[trigger] d2[k]).0 == q && d2[k].1.values.len() == 1 by {
                    let k = choose|k: int| 0 <= k < d1.len() && (#[trigger] d1[k]).0 == q && d1[k].1.values.len() == 1;
                    assert(d2[k] == d1[k]);
                }
                assert(pre_inv(t2, d2));
            },
            SemanticReprV::Instruction(ins) => {
                assert(d2 =~= d1);
                lemma_pre_operands_inv(t1, d1, ins.operands, m);
            },
            _ => {
                assert(d2 =~= d1);
            },
        }
        assert forall|i: int| 0 <= i < lines.len() implies match #[trigger] lines[i] {
            SemanticReprV::Instruction(ins) => ops_marked(t2, ins.operands, m),
            _ => true,
        } by {
            if i < lines.len() - 1 {
                assert(front[i] == lines[i]);
                if let SemanticReprV::Instruction(ins) = lines[i] {
                    assert(ops_marked(t1, ins.operands, m));
                }
            }
        }
    }
}

/// Whether the constant dereferences of every module are marked in `t`.
pub open spec fn modules_marked(t: BindingTableV, mods: Seq<(Seq<char>, Seq<SemanticReprV>)>) -> bool {
    forall|k: int| 0 <= k < mods.len() ==> lines_marked(t, (#[trigger] mods[k]).1, mods[k].0)
}

proof fn lemma_marks_kept_lines(a: BindingTableV, b: BindingTableV, lines: Seq<SemanticReprV>, m: Seq<char>)
    requires
        lines_marked(a, lines, m),
        const_marks_kept(a, b),
    ensures
        lines_marked(b, lines, m),
{
    assert forall|i: int| 0 <= i < lines.len() implies match #[trigger] lines[i] {
        SemanticReprV::Instruction(ins) => ops_marked(b, ins.operands, m),
        _ => true,
    } by {
        if let SemanticReprV::Instruction(ins) = lines[i] {
            assert(ops_marked(a, ins.operands, m));
            assert forall|j: int| 0 <= j < ins.operands.len() && is_const_deref(#[trigger] ins.operands[j])
                implies b.const_deref.contains_key(const_deref_name(ins.operands[j], m))
                && b.const_deref[const_deref_name(ins.operands[j], m)] by {
                assert(a.const_deref.contains_key(const_deref_name(ins.operands[j], m)));
            }
        }
    }
}

proof fn lemma_pre_modules_inv(t: BindingTableV, mods: Seq<(Seq<char>, Seq<SemanticReprV>)>)
    requires
        pre_inv(t, Seq::empty()),
        pre_modules(t, mods).1 is None,
    ensures
        pre_inv(pre_modules(t, mods).0, defs_of_modules(mods)),
        const_marks_kept(t, pre_modules(t, mods).0),
        modules_marked(pre_modules(t, mods).0, mods),
    decreases mods.len(),
{
    if mods.len() > 0 {
        let front = mods.drop_last();
        lemma_pre_modules_inv(t, front);
        let t1 = pre_modules(t, front).0;
        lemma_pre_lines_inv(t1, defs_of_modules(front), mods.last().1, mods.last().0);
        let t2 = pre_modules(t, mods).0;
        assert forall|k: int| 0 <= k < mods.len() implies lines_marked(t2, (#[trigger] mods[k]).1, mods[k].0) by {
            if k < mods.len() - 1 {
                assert(front[k] == mods[k]);
                lemma_marks_kept_lines(t1, t2, mods[k].1, mods[k].0);
            }
        }
    }
}

/// Whether the table has an entry for `s` with the definition `def`.
pub open spec fn entry_has_def(t: BindingTableV, s: SymbolNameV, def: SemanticBindingDefV) -> bool {
    match spec_entry(t, s) {
        Some(e) => e.def == def,
        None => false,
    }
}

/// Whether every definition of `d` is the definition of its name's entry.
pub open spec fn defs_entered(t: BindingTableV, d: Seq<(SymbolNameV, SemanticBindingDefV)>) -> bool {
    forall|k: int| 0 <= k < d.len() ==> #[trigger] entry_has_def(t, d[k].0, d[k].1)
}

/// Whether every entry of `a` is unchanged in `b`.
pub open spec fn entries_kept(a: BindingTableV, b: BindingTableV) -> bool {
    forall|s: SymbolNameV| #[trigger] spec_entry(a, s) is Some ==> spec_entry(b, s) == spec_entry(a, s)
}

proof fn lemma_entry_push(t: BindingTableV, s: SymbolNameV, e: BindingTableEntryV, q: SymbolNameV)
    requires
        find_key(t.entries, s) is None,
    ensures
        spec_entry(BindingTableV { entries: insert_pair(t.entries, s, e), ..t }, q) == if q == s && spec_entry(t, q) is None {
            Some(e)
        } else {
            spec_entry(t, q)
        },
{
    lemma_find_key_push(t.entries, s, e, q);
    assert(insert_pair(t.entries, s, e) == t.entries.push((s, e)));
    if let Some(i) = find_key(t.entries, q) {
        lemma_find_key(t.entries, q);
        assert(t.entries.push((s, e))[i] == t.entries[i]);
    }
}

proof fn lemma_append_from_defs(t: BindingTableV, open: bool, lines: Seq<SemanticReprV>, m: Seq<char>)
    requires
        append_from(t, open, lines, m).2 is None,
    ensures
        entries_kept(t, append_from(t, open, lines, m).0),
        defs_entered(append_from(t, open, lines, m).0, defs_of_lines(lines, m)),
    decreases lines.len(),
{
    if lines.len() > 0 {
        let front = lines.drop_last();
        lemma_append_from_defs(t, open, front, m);
        let (t1, o1, _) = append_from(t, open, front, m);
        let t2 = append_from(t, open, lines, m).0;
        let d1 = defs_of_lines(front, m);
        let d2 = defs_of_lines(lines, m);
        match lines.last() {
            SemanticReprV::BindingDef(def) => {
                let s = qualified(def.name, m);
                let e = if !spec_can_inline(t1, s) {
                    BindingTableEntryV { def, alloc: BindingAllocationType::Static(t1.counter as usize) }
                } else {
                    BindingTableEntryV { def, alloc: BindingAllocationType::Inline }
                };
                assert(t2.entries == insert_pair(t1.entries, s, e));
                assert forall|q: SymbolNameV| #[trigger] spec_entry(t1, q) is Some implies spec_entry(t2, q) == spec_entry(t1, q) by {
                    lemma_entry_push(t1, s, e, q);
                }
                assert(d2 =~= d1.push((s, def)));
                assert(find_key(t1.entries, s) is None);
                assert forall|k: int| 0 <= k < d2.len() implies #[trigger] entry_has_def(t2, d2[k].0, d2[k].1) by {
                    lemma_entry_push(t1, s, e, d2[k].0);
                    if k < d1.len() {
                        assert(d2[k] == d1[k]);
                        assert(entry_has_def(t1, d1[k].0, d1[k].1));
                    } else {
                        assert(d2[k] == (s, def));
                    }
                }
            },
            _ => {
                assert(d2 =~= d1);
            },
        }
    }
}

proof fn lemma_append_modules_defs(t: BindingTableV, mods: Seq<(Seq<char>, Seq<SemanticReprV>)>)
    requires
        append_modules(t, mods).1 is None,
    ensures
        entries_kept(t, append_modules(t, mods).0),
        defs_entered(append_modules(t, mods).0, defs_of_modules(mods)),
    decreases mods.len(),
{
    if mods.len() > 0 {
        let front = mods.drop_last();
        lemma_append_modules_defs(t, front);
        let t1 = append_modules(t, front).0;
        lemma_append_from_defs(t1, false, mods.last().1, mods.last().0);
        let t2 = append_modules(t, mods).0;
        let d1 = defs_of_modules(front);
        let d2 = defs_of_modules(mods);
        let dl = defs_of_lines(mods.last().1, mods.last().0);
        assert forall|k: int| 0 <= k < d2.len() implies #[trigger] entry_has_def(t2, d2[k].0, d2[k].1) by {
            if k < d1.len() {
                assert(d2[k] == d1[k]);
                assert(entry_has_def(t1, d1[k].0, d1[k].1));
                assert(spec_entry(t1, d1[k].0) is Some);
            } else {
                assert(d2[k] == dl[k - d1.len()]);
            }
        }
    }
}

/// When the first two passes build a binding table, inlining any
/// constant dereference of the modules finds a value: the binding was
/// dereferenced as a constant only after a definition with one value, and
/// that definition is its entry's.
pub proof fn lemma_inlining_finds_values(mods: Seq<(Seq<char>, Seq<SemanticReprV>)>)
    requires
        spec_binding_table(mods) is Ok,
    ensures
        modules_lower_safe(spec_binding_table(mods)->Ok_0, mods),
{
    let t0 = empty_binding_table();
    assert(pre_inv(t0, Seq::empty()));
    lemma_pre_modules_inv(t0, mods);
    let t1 = pre_modules(t0, mods).0;
    lemma_append_modules_defs(t1, mods);
    let t2 = append_modules(t1, mods).0;
    let d = defs_of_modules(mods);
    assert forall|k: int| 0 <= k < mods.len() implies lower_safe(t2, (#[trigger] mods[k]).1, mods[k].0) by {
        let lines = mods[k].1;
        let m = mods[k].0;
        assert(lines_marked(t1, lines, m));
        assert forall|i: int| 0 <= i < lines.len() implies line_lower_safe(t2, #[trigger] lines[i], m) by {
            if let SemanticReprV::Instruction(ins) = lines[i] {
                assert(ops_marked(t1, ins.operands, m));
                assert forall|j: int| 0 <= j < ins.operands.len() implies operand_lower_safe(t2, #[trigger] ins.operands[j], m) by {
                    let op = ins.operands[j];
                    if is_const_deref(op) {
                        let s = const_deref_name(op, m);
                        assert(t1.const_deref.contains_key(s) && t1.const_deref[s]);
                        let q = choose|q: int| 0 <= q < d.len() && (#[trigger] d[q]).0 == s && d[q].1.values.len() == 1;
                        assert(entry_has_def(t2, d[q].0, d[q].1));
                    }
                }
            }
        }
    }
}


/// When the binding table is built, every definition of the modules is
/// the definition of its name's entry: a name is defined once, and its
/// definition is kept as written.
pub proof fn lemma_definitions_entered(mods: Seq<(Seq<char>, Seq<SemanticReprV>)>)
    requires
        spec_binding_table(mods) is Ok,
    ensures
        defs_entered(spec_binding_table(mods)->Ok_0, defs_of_modules(mods)),
{
    let t1 = pre_modules(empty_binding_table(), mods).0;
    lemma_append_modules_defs(t1, mods);
}

} // verus!
