use vstd::prelude::*;

use crate::hashtags::{DefTags, FunTags, RecTags, TagRecTags, TagTags};
use crate::parse::ast::strings_view;

use super::type_::{lemma_types_view_push, types_view, SType, SeaType};

verus! {

/// What a name stands for.
#[derive(Debug)]
pub enum Symbol {
    Fun { tags: Vec<FunTags>, params: Vec<SeaType>, rets: SeaType },
    Rec { tags: Vec<RecTags>, fields: Vec<(String, SeaType)> },
    Def { tags: Vec<DefTags>, typ: SeaType },
    Tag { tags: Vec<TagTags>, entries: Vec<String> },
    TagRec { tags: Vec<TagRecTags>, entries: Vec<(String, Vec<(String, SeaType)>)> },
    Var { typ: SeaType, mutable: bool },
}

/// The mathematical value of a symbol.
pub enum SSymbol {
    Fun { tags: Seq<FunTags>, params: Seq<SType>, rets: SType },
    Rec { tags: Seq<RecTags>, fields: Seq<(Seq<char>, SType)> },
    Def { tags: Seq<DefTags>, typ: SType },
    Tag { tags: Seq<TagTags>, entries: Seq<Seq<char>> },
    TagRec { tags: Seq<TagRecTags>, entries: Seq<(Seq<char>, Seq<(Seq<char>, SType)>)> },
    Var { typ: SType, mutable: bool },
}

pub open spec fn fields_view(s: Seq<(String, SeaType)>) -> Seq<(Seq<char>, SType)> {
    s.map_values(|f: (String, SeaType)| (f.0@, f.1@))
}

impl View for Symbol {
    type V = SSymbol;

    open spec fn view(&self) -> SSymbol {
        match self {
            Symbol::Fun { tags, params, rets } => SSymbol::Fun {
                tags: tags@,
                params: types_view(params@),
                rets: rets@,
            },
            Symbol::Rec { tags, fields } => SSymbol::Rec { tags: tags@, fields: fields_view(fields@) },
            Symbol::Def { tags, typ } => SSymbol::Def { tags: tags@, typ: typ@ },
            Symbol::Tag { tags, entries } => SSymbol::Tag {
                tags: tags@,
                entries: strings_view(entries@),
            },
            Symbol::TagRec { tags, entries } => SSymbol::TagRec {
                tags: tags@,
                entries: entries@.map_values(
                    |e: (String, Vec<(String, SeaType)>)| (e.0@, fields_view(e.1@)),
                ),
            },
            Symbol::Var { typ, mutable } => SSymbol::Var { typ: typ@, mutable: *mutable },
        }
    }
}

/// A copy of hashtags.
pub(crate) fn copy_tags<T: Copy>(v: &Vec<T>) -> (r: Vec<T>)
    ensures
        r@ == v@,
{
    let mut r: Vec<T> = Vec::new();
    let mut i: usize = 0;
    while i < v.len()
        invariant
            i <= v.len(),
            r@ == v@.take(i as int),
        decreases v.len() - i,
    {
        r.push(v[i]);
        proof {
            assert(v@.take(i + 1) =~= v@.take(i as int).push(v@[i as int]));
        }
        i = i + 1;
    }
    proof {
        assert(v@.take(i as int) =~= v@);
    }
    r
}

/// A copy of named fields.
pub(crate) fn copy_fields(v: &Vec<(String, SeaType)>) -> (r: Vec<(String, SeaType)>)
    ensures
        fields_view(r@) == fields_view(v@),
{
    let mut r: Vec<(String, SeaType)> = Vec::new();
    let mut i: usize = 0;
    while i < v.len()
        invariant
            i <= v.len(),
            r.len() == i,
            forall|j: int| #![trigger r@[j]] 0 <= j < i ==> r@[j].0@ == v@[j].0@ && r@[j].1@ == v@[j].1@,
        decreases v.len() - i,
    {
        let f = (v[i].0.clone(), v[i].1.duplicate());
        r.push(f);
        i = i + 1;
    }
    proof {
        assert(fields_view(r@) =~= fields_view(v@));
    }
    r
}

/// A copy of names.
fn copy_strings(v: &Vec<String>) -> (r: Vec<String>)
    ensures
        strings_view(r@) == strings_view(v@),
{
    let mut r: Vec<String> = Vec::new();
    let mut i: usize = 0;
    while i < v.len()
        invariant
            i <= v.len(),
            r.len() == i,
            forall|j: int| #![trigger r@[j]] 0 <= j < i ==> r@[j]@ == v@[j]@,
        decreases v.len() - i,
    {
        r.push(v[i].clone());
        i = i + 1;
    }
    proof {
        assert(strings_view(r@) =~= strings_view(v@));
    }
    r
}

impl Symbol {
    /// A copy of this symbol.
    pub fn duplicate(&self) -> (r: Symbol)
        ensures
            r@ == self@,
    {
        match self {
            Symbol::Fun { tags, params, rets } => {
                let mut ps: Vec<SeaType> = Vec::new();
                let mut i: usize = 0;
                while i < params.len()
                    invariant
                        i <= params.len(),
                        types_view(ps@) == types_view(params@.take(i as int)),
                    decreases params.len() - i,
                {
                    proof {
                        assert(params@.take(i + 1).subrange(0, i as int) =~= params@.take(i as int));
                    }
                    let t = params[i].duplicate();
                    proof {
                        lemma_types_view_push(ps@, t);
                    }
                    ps.push(t);
                    i = i + 1;
                }
                proof {
                    assert(params@.take(i as int) =~= params@);
                }
                Symbol::Fun { tags: copy_tags(tags), params: ps, rets: rets.duplicate() }
            },
            Symbol::Rec { tags, fields } => Symbol::Rec { tags: copy_tags(tags), fields: copy_fields(fields) },
            Symbol::Def { tags, typ } => Symbol::Def { tags: copy_tags(tags), typ: typ.duplicate() },
            Symbol::Tag { tags, entries } => Symbol::Tag { tags: copy_tags(tags), entries: copy_strings(entries) },
            Symbol::TagRec { tags, entries } => {
                let mut es: Vec<(String, Vec<(String, SeaType)>)> = Vec::new();
                let mut i: usize = 0;
                while i < entries.len()
                    invariant
                        i <= entries.len(),
                        es.len() == i,
                        forall|j: int|
                            #![trigger es@[j]]
                            0 <= j < i ==> es@[j].0@ == entries@[j].0@ && fields_view(es@[j].1@)
                                == fields_view(entries@[j].1@),
                    decreases entries.len() - i,
                {
                    let e = (entries[i].0.clone(), copy_fields(&entries[i].1));
                    es.push(e);
                    i = i + 1;
                }
                let r = Symbol::TagRec { tags: copy_tags(tags), entries: es };
                proof {
                    assert(r@->TagRec_entries =~= self@->TagRec_entries);
                }
                r
            },
            Symbol::Var { typ, mutable } => Symbol::Var { typ: typ.duplicate(), mutable: *mutable },
        }
    }

    /// Records and tagged records can be instantiated.
    pub fn instantiatable(&self) -> (r: bool)
        ensures
            r <==> (self@ is Rec || self@ is TagRec),
    {
        match self {
            Symbol::Rec { .. } => true,
            Symbol::TagRec { .. } => true,
            _ => false,
        }
    }

    /// Functions and variables of function pointer type can be invoked.
    pub fn invocable(&self) -> (r: bool)
        ensures
            r <==> (self@ is Fun || (self@ matches SSymbol::Var { typ, .. } && typ.funptr_rets
                is Some)),
    {
        match self {
            Symbol::Fun { .. } => true,
            Symbol::Var { typ, .. } => typ.funptr_rets.is_some(),
            _ => false,
        }
    }
}

/// An entry of a symbol table: name, scope and symbol.
pub type SEntry = (Seq<char>, int, SSymbol);

pub open spec fn entries_view(s: Seq<(String, usize, Symbol)>) -> Seq<SEntry> {
    s.map_values(|e: (String, usize, Symbol)| (e.0@, e.1 as int, e.2@))
}

/// The names that a list of declarations makes visible: a later declaration
/// shadows an earlier one of the same name.
pub open spec fn table_map(s: Seq<SEntry>) -> Map<Seq<char>, (int, SSymbol)>
    decreases s.len(),
{
    if s.len() == 0 {
        Map::empty()
    } else {
        table_map(s.drop_last()).insert(s.last().0, (s.last().1, s.last().2))
    }
}

/// The entries that `keep` keeps, in order.
pub open spec fn retain(s: Seq<SEntry>, keep: spec_fn(SEntry) -> bool) -> Seq<SEntry>
    decreases s.len(),
{
    if s.len() == 0 {
        Seq::empty()
    } else if keep(s.last()) {
        retain(s.drop_last(), keep).push(s.last())
    } else {
        retain(s.drop_last(), keep)
    }
}

/// The declarations of the scopes shallower than `scope`.
pub open spec fn shallower(s: Seq<SEntry>, scope: int) -> Seq<SEntry> {
    retain(s, below(scope))
}

/// Whether a declaration belongs to a scope shallower than `scope`.
pub open spec fn below(scope: int) -> spec_fn(SEntry) -> bool {
    |e: SEntry| e.1 < scope
}

/// Whether a declaration is of a name other than `name`.
pub open spec fn other_than(name: Seq<char>) -> spec_fn(SEntry) -> bool {
    |e: SEntry| e.0 != name
}

/// The declarations of names other than `name`.
pub open spec fn without(s: Seq<SEntry>, name: Seq<char>) -> Seq<SEntry> {
    retain(s, other_than(name))
}

pub proof fn lemma_table_map_keys(s: Seq<SEntry>, k: Seq<char>)
    ensures
        table_map(s).contains_key(k) <==> exists|i: int| 0 <= i < s.len() && s[i].0 == k,
    decreases s.len(),
{
    if s.len() > 0 {
        lemma_table_map_keys(s.drop_last(), k);
        if table_map(s).contains_key(k) && s.last().0 != k {
            let i = choose|i: int| 0 <= i < s.len() - 1 && s.drop_last()[i].0 == k;
            assert(s[i].0 == k);
        }
        if exists|i: int| 0 <= i < s.len() && s[i].0 == k {
            let i = choose|i: int| 0 <= i < s.len() && s[i].0 == k;
            if i < s.len() - 1 {
                assert(s.drop_last()[i].0 == k);
            }
        }
    }
}

/// The visible declaration of a name is its last one.
pub proof fn lemma_table_map_last(s: Seq<SEntry>, i: int)
    requires
        0 <= i < s.len(),
        forall|j: int| i < j < s.len() ==> s[j].0 != s[i].0,
    ensures
        table_map(s).contains_key(s[i].0),
        table_map(s)[s[i].0] == (s[i].1, s[i].2),
    decreases s.len(),
{
    if i < s.len() - 1 {
        assert forall|j: int| i < j < s.len() - 1 implies s.drop_last()[j].0 != s.drop_last()[i].0 by {
            assert(s[j] == s.drop_last()[j]);
        }
        lemma_table_map_last(s.drop_last(), i);
        assert(s.last() == s[s.len() - 1]);
    }
}

/// Removing every declaration of a name makes it invisible and leaves the others.
pub proof fn lemma_without(s: Seq<SEntry>, name: Seq<char>)
    ensures
        table_map(without(s, name)) == table_map(s).remove(name),
    decreases s.len(),
{
    if s.len() > 0 {
        lemma_without(s.drop_last(), name);
        let p = s.drop_last();
        let e = s.last();
        if e.0 == name {
            assert(!other_than(name)(e));
            assert(without(s, name) == without(p, name));
            assert(table_map(s).remove(name) =~= table_map(p).remove(name));
        } else {
            assert(other_than(name)(e));
            assert(without(s, name) == without(p, name).push(e));
            assert(without(p, name).push(e).drop_last() =~= without(p, name));
            assert(table_map(without(s, name)) =~= table_map(s).remove(name));
        }
    }
}

/// Keeping what is kept anyway changes nothing.
pub proof fn lemma_retain_all(s: Seq<SEntry>, keep: spec_fn(SEntry) -> bool)
    requires
        forall|i: int| 0 <= i < s.len() ==> #[trigger] keep(s[i]),
    ensures
        retain(s, keep) == s,
    decreases s.len(),
{
    if s.len() > 0 {
        assert forall|i: int| 0 <= i < s.drop_last().len() implies #[trigger] keep(s.drop_last()[i]) by {
            assert(s.drop_last()[i] == s[i]);
        }
        lemma_retain_all(s.drop_last(), keep);
        assert(keep(s[s.len() - 1]));
        assert(s.drop_last().push(s.last()) =~= s);
    }
}

/// Everything that `retain` keeps is kept by `keep`, and keeping twice is keeping once.
pub proof fn lemma_retain_kept(s: Seq<SEntry>, keep: spec_fn(SEntry) -> bool)
    ensures
        forall|i: int| 0 <= i < retain(s, keep).len() ==> #[trigger] keep(retain(s, keep)[i]),
        retain(retain(s, keep), keep) == retain(s, keep),
    decreases s.len(),
{
    if s.len() > 0 {
        lemma_retain_kept(s.drop_last(), keep);
        let r = retain(s.drop_last(), keep);
        if keep(s.last()) {
            assert forall|i: int| 0 <= i < r.push(s.last()).len() implies #[trigger] keep(
                r.push(s.last())[i],
            ) by {
                if i < r.len() {
                    assert(r.push(s.last())[i] == r[i]);
                }
            }
        }
        lemma_retain_all(retain(s, keep), keep);
    }
}

/// Reading a name back after declaring it gives the declaration (`get_symbol` after
/// `add_scoped_symbol`).
pub proof fn law_get_after_add(s: Seq<SEntry>, name: Seq<char>, scope: int, sym: SSymbol)
    ensures
        table_map(s.push((name, scope, sym))).contains_key(name),
        table_map(s.push((name, scope, sym)))[name] == (scope, sym),
{
    assert(s.push((name, scope, sym)).drop_last() =~= s);
}

/// Declaring a name leaves every other name as it was.
pub proof fn law_add_keeps_others(s: Seq<SEntry>, name: Seq<char>, other: Seq<char>, scope: int, sym: SSymbol)
    requires
        other != name,
    ensures
        table_map(s.push((name, scope, sym))).contains_key(other) == table_map(s).contains_key(other),
        table_map(s).contains_key(other) ==> table_map(s.push((name, scope, sym)))[other] == table_map(s)[other],
{
    assert(s.push((name, scope, sym)).drop_last() =~= s);
}

/// After `remove_symbol`, the name is not declared, and the other names are as they were.
pub proof fn law_removed_is_absent(s: Seq<SEntry>, name: Seq<char>)
    ensures
        !table_map(without(s, name)).contains_key(name),
        forall|k: Seq<char>|
            k != name ==> (#[trigger] table_map(without(s, name)).contains_key(k) == table_map(s).contains_key(k)),
{
    lemma_without(s, name);
}

/// Leaving the scopes from `scope` on keeps only declarations of shallower scopes;
/// leaving them twice is leaving them once.
pub proof fn law_leave_scopes(s: Seq<SEntry>, scope: int)
    ensures
        forall|i: int| 0 <= i < shallower(s, scope).len() ==> #[trigger] shallower(s, scope)[i].1 < scope,
        shallower(shallower(s, scope), scope) == shallower(s, scope),
{
    lemma_retain_kept(s, below(scope));
    assert forall|i: int| 0 <= i < shallower(s, scope).len() implies #[trigger] shallower(s, scope)[i].1 < scope by {
        assert(below(scope)(shallower(s, scope)[i]));
    }
}

/// The declarations in scope, in the order they were made; a name may be declared
/// again in a deeper scope, which shadows the earlier declaration until that
/// scope is left.
pub struct SymbolTable {
    symbols: Vec<(String, usize, Symbol)>,
}

impl View for SymbolTable {
    type V = Map<Seq<char>, (int, SSymbol)>;

    /// The visible declaration of each name, with its scope.
    closed spec fn view(&self) -> Map<Seq<char>, (int, SSymbol)> {
        table_map(entries_view(self.symbols@))
    }
}

impl SymbolTable {
    /// Every table is well formed.
    pub closed spec fn wf(&self) -> bool {
        true
    }

    /// All declarations, shadowed ones included, in the order they were made.
    pub closed spec fn entries(&self) -> Seq<SEntry> {
        entries_view(self.symbols@)
    }

    pub proof fn lemma_view(&self)
        ensures
            self@ == table_map(self.entries()),
    {
    }

    /// An empty table.
    pub fn new() -> (r: SymbolTable)
        ensures
            r.wf(),
            r.entries() == Seq::<SEntry>::empty(),
            r@ == Map::<Seq<char>, (int, SSymbol)>::empty(),
    {
        let r = SymbolTable { symbols: Vec::new() };
        proof {
            assert(entries_view(r.symbols@) =~= Seq::empty());
        }
        r
    }

    /// Declares `symbol` as `kind` in the outermost scope.
    pub fn add_symbol(&mut self, symbol: String, kind: Symbol)
        requires
            old(self).wf(),
        ensures
            final(self).wf(),
            final(self).entries() == old(self).entries().push((symbol@, 0int, kind@)),
            final(self)@ == old(self)@.insert(symbol@, (0int, kind@)),
    {
        self.add_scoped_symbol(symbol, 0, kind);
    }

    /// Declares `symbol` as `kind` in scope `scope`; it shadows an earlier
    /// declaration of the same name.
    pub fn add_scoped_symbol(&mut self, symbol: String, scope: usize, kind: Symbol)
        requires
            old(self).wf(),
        ensures
            final(self).wf(),
            final(self).entries() == old(self).entries().push((symbol@, scope as int, kind@)),
            final(self)@ == old(self)@.insert(symbol@, (scope as int, kind@)),
    {
        let ghost s = entries_view(self.symbols@);
        let e = (symbol, scope, kind);
        self.symbols.push(e);
        proof {
            assert(entries_view(self.symbols@) =~= s.push((e.0@, e.1 as int, e.2@)));
            assert(entries_view(self.symbols@).drop_last() =~= s);
        }
    }

    /// Removes the entries that `keep` does not keep.
    fn retain_entries(&mut self, keep: Ghost<spec_fn(SEntry) -> bool>, name: &String, scope: usize, by_name: bool)
        requires
            by_name ==> keep@ == other_than(name@),
            !by_name ==> keep@ == below(scope as int),
        ensures
            final(self).entries() == retain(old(self).entries(), keep@),
    {
        let ghost orig = entries_view(self.symbols@);
        let mut rest: Vec<(String, usize, Symbol)> = Vec::new();
        std::mem::swap(&mut rest, &mut self.symbols);
        let ghost mut j: int = 0;
        proof {
            assert(entries_view(self.symbols@) =~= retain(orig.take(0), keep@));
            assert(entries_view(rest@) =~= orig.skip(0));
        }
        while rest.len() > 0
            invariant
                0 <= j <= orig.len(),
                entries_view(self.symbols@) == retain(orig.take(j), keep@),
                entries_view(rest@) == orig.skip(j),
                by_name ==> keep@ == other_than(name@),
                !by_name ==> keep@ == below(scope as int),
            decreases rest.len(),
        {
            let ghost old_rest = entries_view(rest@);
            let ghost old_exec = rest@;
            assert(old_rest.len() == rest@.len());
            let e = rest.remove(0);
            let ghost ev = (e.0@, e.1 as int, e.2@);
            proof {
                assert(old_rest[0] == ev);
                assert(orig.skip(j)[0] == ev);
                assert(j + 1 <= orig.len());
                assert(orig.take(j + 1).drop_last() =~= orig.take(j));
                assert(orig.take(j + 1).last() == ev);
                assert(rest@ =~= old_exec.subrange(1, old_exec.len() as int));
                assert(entries_view(rest@) =~= old_rest.subrange(1, old_rest.len() as int));
                assert(entries_view(rest@) =~= orig.skip(j + 1));
            }
            let kept = if by_name {
                e.0 != *name
            } else {
                e.1 < scope
            };
            if kept {
                let ghost before = entries_view(self.symbols@);
                self.symbols.push(e);
                proof {
                    assert(entries_view(self.symbols@) =~= before.push(ev));
                }
            }
            proof {
                j = j + 1;
            }
        }
        proof {
            assert(orig.take(j) =~= orig);
        }
    }

    /// Removes every declaration of `symbol`.
    pub fn remove_symbol(&mut self, symbol: String)
        requires
            old(self).wf(),
        ensures
            final(self).wf(),
            final(self).entries() == without(old(self).entries(), symbol@),
            final(self)@ == old(self)@.remove(symbol@),
    {
        let ghost keep = other_than(symbol@);
        self.retain_entries(Ghost(keep), &symbol, 0, true);
        proof {
            lemma_without(old(self).entries(), symbol@);
        }
    }

    /// Removes the declarations of the scopes `scope` and deeper; the declarations
    /// that they shadowed are visible again.
    pub fn remove_symbols_from_scopes(&mut self, scope: usize)
        requires
            old(self).wf(),
        ensures
            final(self).wf(),
            final(self).entries() == shallower(old(self).entries(), scope as int),
            final(self)@ == table_map(shallower(old(self).entries(), scope as int)),
    {
        let ghost keep = below(scope as int);
        let name = String::new();
        self.retain_entries(Ghost(keep), &name, scope, false);
    }

    /// The visible declaration of `symbol`, if any.
    pub fn get_symbol(&self, symbol: String) -> (r: Option<&Symbol>)
        requires
            self.wf(),
        ensures
            r is Some <==> self@.contains_key(symbol@),
            r is Some ==> r->0@ == self@[symbol@].1,
    {
        let ghost s = entries_view(self.symbols@);
        proof {
            lemma_table_map_keys(s, symbol@);
        }
        let mut i: usize = self.symbols.len();
        while i > 0
            invariant
                i <= self.symbols.len(),
                s == entries_view(self.symbols@),
                forall|j: int| i <= j < s.len() ==> s[j].0 != symbol@,
            decreases i,
        {
            i = i - 1;
            if self.symbols[i].0 == symbol {
                proof {
                    lemma_table_map_last(s, i as int);
                }
                return Some(&self.symbols[i].2);
            }
        }
        None
    }
}

} // verus!
