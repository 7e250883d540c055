use vstd::prelude::*;

use crate::hashtags::{DefTags, FunTags, RecTags, TagRecTags, TagTags};
use crate::parse::ast::strings_view;

use super::symbol::{below, lemma_retain_all, shallower, table_map, SEntry, SSymbol, Symbol, SymbolTable};
use super::type_::SeaType;

verus! {

/// What a compilation keeps track of while it generates code: how deep in scopes
/// it is, the symbols in scope, the modules in use, the files being compiled and
/// the flags for the C compiler.
pub struct Compiler {
    pub scope: usize,
    pub symbols: SymbolTable,
    pub usages: Vec<String>,
    pub file_stack: Vec<String>,
    pub cc_flags: Vec<String>,
}

impl Compiler {
    pub open spec fn wf(&self) -> bool {
        self.symbols.wf()
    }

    /// A compilation of `file`, at the outermost scope with no symbols.
    pub fn new(file: String) -> (r: Compiler)
        ensures
            r.wf(),
            r.scope == 0,
            r.symbols@ == Map::<Seq<char>, (int, SSymbol)>::empty(),
            r.symbols.entries() == Seq::<SEntry>::empty(),
            strings_view(r.usages@) == Seq::<Seq<char>>::empty(),
            strings_view(r.file_stack@) == seq![file@],
            strings_view(r.cc_flags@) == Seq::<Seq<char>>::empty(),
    {
        let mut file_stack = Vec::new();
        proof {
            crate::parse::ast::lemma_strings_view_push(file_stack@, file);
            assert(strings_view(file_stack@) =~= Seq::empty());
        }
        file_stack.push(file);
        let r = Compiler {
            scope: 0,
            symbols: SymbolTable::new(),
            usages: Vec::new(),
            file_stack,
            cc_flags: Vec::new(),
        };
        proof {
            assert(strings_view(r.usages@) =~= Seq::empty());
            assert(strings_view(r.cc_flags@) =~= Seq::empty());
        }
        r
    }

    /// Enters a scope.
    pub fn push_scope(&mut self)
        requires
            old(self).scope < usize::MAX,
        ensures
            final(self).scope == old(self).scope + 1,
            final(self).symbols == old(self).symbols,
            final(self).usages == old(self).usages,
            final(self).file_stack == old(self).file_stack,
            final(self).cc_flags == old(self).cc_flags,
    {
        self.scope = self.scope + 1;
    }

    /// Leaves the current scope: its symbols, and those of deeper scopes, go.
    pub fn pop_scope(&mut self)
        requires
            old(self).wf(),
            old(self).scope > 0,
        ensures
            final(self).wf(),
            final(self).scope == old(self).scope - 1,
            final(self).symbols.entries() == shallower(old(self).symbols.entries(), old(self).scope as int),
            final(self).symbols@ == table_map(final(self).symbols.entries()),
            final(self).usages == old(self).usages,
            final(self).file_stack == old(self).file_stack,
            final(self).cc_flags == old(self).cc_flags,
    {
        self.symbols.remove_symbols_from_scopes(self.scope);
        self.scope = self.scope - 1;
    }

    /// Whether the module at `path` is in use.
    pub fn uses(&self, path: &String) -> (r: bool)
        ensures
            r == strings_view(self.usages@).contains(path@),
    {
        super::modules::in_use(&self.usages, path)
    }

    /// Declares a function.
    pub fn add_fun(&mut self, name: String, tags: Vec<FunTags>, params: Vec<SeaType>, rets: SeaType)
        requires
            old(self).wf(),
        ensures
            final(self).wf(),
            final(self).scope == old(self).scope,
            final(self).usages == old(self).usages,
            final(self).file_stack == old(self).file_stack,
            final(self).cc_flags == old(self).cc_flags,
            final(self).symbols@ == old(self).symbols@.insert(
                name@,
                (0int, (Symbol::Fun { tags, params, rets })@),
            ),
            final(self).symbols.entries() == old(self).symbols.entries().push((name@, 0int, (Symbol::Fun { tags, params, rets })@)),
    {
        self.symbols.add_symbol(name, Symbol::Fun { tags, params, rets });
    }

    /// Declares a record.
    pub fn add_rec(&mut self, name: String, tags: Vec<RecTags>, fields: Vec<(String, SeaType)>)
        requires
            old(self).wf(),
        ensures
            final(self).wf(),
            final(self).scope == old(self).scope,
            final(self).usages == old(self).usages,
            final(self).file_stack == old(self).file_stack,
            final(self).cc_flags == old(self).cc_flags,
            final(self).symbols@ == old(self).symbols@.insert(
                name@,
                (0int, (Symbol::Rec { tags, fields })@),
            ),
            final(self).symbols.entries() == old(self).symbols.entries().push((name@, 0int, (Symbol::Rec { tags, fields })@)),
    {
        self.symbols.add_symbol(name, Symbol::Rec { tags, fields });
    }

    /// Declares a type alias.
    pub fn add_def(&mut self, name: String, tags: Vec<DefTags>, typ: SeaType)
        requires
            old(self).wf(),
        ensures
            final(self).wf(),
            final(self).scope == old(self).scope,
            final(self).usages == old(self).usages,
            final(self).file_stack == old(self).file_stack,
            final(self).cc_flags == old(self).cc_flags,
            final(self).symbols@ == old(self).symbols@.insert(
                name@,
                (0int, (Symbol::Def { tags, typ })@),
            ),
            final(self).symbols.entries() == old(self).symbols.entries().push((name@, 0int, (Symbol::Def { tags, typ })@)),
    {
        self.symbols.add_symbol(name, Symbol::Def { tags, typ });
    }

    /// Declares a tag.
    pub fn add_tag(&mut self, name: String, tags: Vec<TagTags>, entries: Vec<String>)
        requires
            old(self).wf(),
        ensures
            final(self).wf(),
            final(self).scope == old(self).scope,
            final(self).usages == old(self).usages,
            final(self).file_stack == old(self).file_stack,
            final(self).cc_flags == old(self).cc_flags,
            final(self).symbols@ == old(self).symbols@.insert(
                name@,
                (0int, (Symbol::Tag { tags, entries })@),
            ),
            final(self).symbols.entries() == old(self).symbols.entries().push((name@, 0int, (Symbol::Tag { tags, entries })@)),
    {
        self.symbols.add_symbol(name, Symbol::Tag { tags, entries });
    }

    /// Declares a tagged record.
    pub fn add_tag_rec(
        &mut self,
        name: String,
        tags: Vec<TagRecTags>,
        entries: Vec<(String, Vec<(String, SeaType)>)>,
    )
        requires
            old(self).wf(),
        ensures
            final(self).wf(),
            final(self).scope == old(self).scope,
            final(self).usages == old(self).usages,
            final(self).file_stack == old(self).file_stack,
            final(self).cc_flags == old(self).cc_flags,
            final(self).symbols@ == old(self).symbols@.insert(
                name@,
                (0int, (Symbol::TagRec { tags, entries })@),
            ),
            final(self).symbols.entries() == old(self).symbols.entries().push((name@, 0int, (Symbol::TagRec { tags, entries })@)),
    {
        self.symbols.add_symbol(name, Symbol::TagRec { tags, entries });
    }

    /// Declares a variable in the current scope.
    pub fn add_var(&mut self, name: String, typ: SeaType, mutable: bool)
        requires
            old(self).wf(),
        ensures
            final(self).wf(),
            final(self).scope == old(self).scope,
            final(self).usages == old(self).usages,
            final(self).file_stack == old(self).file_stack,
            final(self).cc_flags == old(self).cc_flags,
            final(self).symbols@ == old(self).symbols@.insert(
                name@,
                (old(self).scope as int, (Symbol::Var { typ, mutable })@),
            ),
            final(self).symbols.entries() == old(self).symbols.entries().push((name@, old(self).scope as int, (Symbol::Var { typ, mutable })@)),
    {
        self.symbols.add_scoped_symbol(name, self.scope, Symbol::Var { typ, mutable });
    }
}

/// Leaving a scope undoes the declarations made in it: a variable declared
/// there is gone, and a declaration of the same name that it shadowed is visible
/// again, exactly as it was before the scope was entered.
pub proof fn law_scope_roundtrip(s: Seq<SEntry>, depth: int, name: Seq<char>, sym: SSymbol)
    requires
        forall|i: int| 0 <= i < s.len() ==> #[trigger] s[i].1 <= depth,
    ensures
        shallower(s.push((name, depth + 1, sym)), depth + 1) == s,
        table_map(shallower(s.push((name, depth + 1, sym)), depth + 1)) == table_map(s),
{
    let t = s.push((name, depth + 1, sym));
    assert(t.drop_last() =~= s);
    assert forall|i: int| 0 <= i < s.len() implies #[trigger] below(depth + 1)(s[i]) by {}
    lemma_retain_all(s, below(depth + 1));
    assert(below(depth + 1)(t.last()) == false);
}

} // verus!
