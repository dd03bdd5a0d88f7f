use crate::assoc::assoc_map;
use crate::assoc::distinct_keys;
use crate::assoc::key_index;
use crate::assoc::lemma_assoc_dom;
use crate::assoc::lemma_assoc_push;
use crate::assoc::lemma_assoc_remove;
use crate::assoc::lemma_assoc_value;
use crate::assoc::lemma_key_index;
use crate::backend::Value;
use crate::bootstrap::core_view;
use crate::bootstrap::Core;
use crate::datatype::DataType;
use crate::datatype::DataTypeView;
use crate::error::CompileError;
use crate::module::Module;
use crate::module::ModuleView;
use crate::symbol::same_text;
use crate::symbol::Symbol;
use inkwell::context::Context;
use vstd::prelude::*;

verus! {

/// A value of the backend with the description of its type: what the
/// operand stack holds and what a name in scope is bound to.
#[verifier::ext_equal]
pub struct Entry<'a> {
    pub value: Value<'a>,
    pub datatype: DataTypeView,
}

/// A stack entry as the compiler's rules see it.
pub open spec fn entry_view<'a>(entry: (Value<'a>, DataType)) -> Entry<'a> {
    Entry { value: entry.0, datatype: entry.1@ }
}

/// The compiler from syntax trees to the backend's IR: the modules
/// compiled so far, the names in scope, and the operand stack.
pub struct Compiler<'a> {
    modules: Vec<(Symbol, Module<'a>)>,
    scope: Vec<(Symbol, (Value<'a>, DataType))>,
    stack: Vec<(Value<'a>, DataType)>,
}

impl<'a> Compiler<'a> {
    /// The bindings in scope, as pairs.
    pub closed spec fn scope_pairs(&self) -> Seq<(Seq<char>, Entry<'a>)> {
        Seq::new(self.scope@.len(), |i: int| (self.scope@[i].0@, entry_view(self.scope@[i].1)))
    }

    /// The registered modules, as pairs.
    pub closed spec fn module_pairs(&self) -> Seq<(Seq<char>, ModuleView)> {
        Seq::new(self.modules@.len(), |i: int| (self.modules@[i].0@, self.modules@[i].1@))
    }

    /// The scope: what each bound name stands for.
    pub closed spec fn scope_view(&self) -> Map<Seq<char>, Entry<'a>> {
        assoc_map(self.scope_pairs())
    }

    /// The operand stack, bottom first.
    pub closed spec fn stack_view(&self) -> Seq<Entry<'a>> {
        Seq::new(self.stack@.len(), |i: int| entry_view(self.stack@[i]))
    }

    /// The registered modules, by the name they were registered under.
    pub closed spec fn modules_view(&self) -> Map<Seq<char>, ModuleView> {
        assoc_map(self.module_pairs())
    }

    /// No name is bound twice, no module name registered twice, and every
    /// registered module is well formed.
    pub closed spec fn wf(&self) -> bool {
        &&& distinct_keys(self.scope_pairs())
        &&& distinct_keys(self.module_pairs())
        &&& forall|i: int| 0 <= i < self.modules@.len() ==> (#[trigger] self.modules@[i]).1.wf()
    }

    /// The state of a compiler fresh from `new`: the bootstrap module is
    /// registered under the name `Core`, nothing is in scope and the operand
    /// stack is empty.
    pub open spec fn fresh(&self) -> bool {
        &&& self.modules_view() == Map::<Seq<char>, ModuleView>::empty().insert(
            "Core"@,
            core_view(),
        )
        &&& self.scope_view() == Map::<Seq<char>, Entry<'a>>::empty()
        &&& self.stack_view() == Seq::<Entry<'a>>::empty()
    }

    /// A compiler that holds the bootstrap module under the name `Core`,
    /// with nothing in scope and an empty operand stack.
    pub fn new(context: &'a Context) -> (r: Result<Compiler<'a>, CompileError>)
        ensures
            r is Ok ==> r->Ok_0.wf() && r->Ok_0.fresh(),
            r is Err ==> crate::emit::backend_decided(r->Err_0@),
    {
        let core_module = Core::new(context).bootstrap()?;
        let mut modules: Vec<(Symbol, Module<'a>)> = Vec::new();
        modules.push((Symbol::new("Core"), core_module));
        let compiler = Compiler { modules, scope: Vec::new(), stack: Vec::new() };
        proof {
            let pairs = compiler.module_pairs();
            assert(pairs =~= Seq::<(Seq<char>, ModuleView)>::empty().push(("Core"@, core_view())));
            lemma_assoc_push(Seq::<(Seq<char>, ModuleView)>::empty(), "Core"@, core_view());
            assert(compiler.scope_pairs() =~= Seq::<(Seq<char>, Entry<'a>)>::empty());
            assert(compiler.stack_view() =~= Seq::<Entry<'a>>::empty());
        }
        Ok(compiler)
    }

    /// The position of the binding of `name`, if it is bound.
    fn scope_position(&self, name: &str) -> (r: Option<usize>)
        ensures
            match r {
                Some(i) => key_index(self.scope_pairs(), name@, 0) == Some(i as int) && i
                    < self.scope@.len(),
                None => key_index(self.scope_pairs(), name@, 0) is None,
            },
    {
        let mut i: usize = 0;
        while i < self.scope.len()
            invariant
                i <= self.scope@.len(),
                key_index(self.scope_pairs(), name@, 0) == key_index(
                    self.scope_pairs(),
                    name@,
                    i as int,
                ),
            decreases self.scope@.len() - i,
        {
            if same_text(self.scope[i].0.name(), name) {
                return Some(i);
            }
            i += 1;
        }
        None
    }

    /// The position of the module registered under `name`, if there is one.
    fn module_position(&self, name: &str) -> (r: Option<usize>)
        ensures
            match r {
                Some(i) => key_index(self.module_pairs(), name@, 0) == Some(i as int) && i
                    < self.modules@.len(),
                None => key_index(self.module_pairs(), name@, 0) is None,
            },
    {
        let mut i: usize = 0;
        while i < self.modules.len()
            invariant
                i <= self.modules@.len(),
                key_index(self.module_pairs(), name@, 0) == key_index(
                    self.module_pairs(),
                    name@,
                    i as int,
                ),
            decreases self.modules@.len() - i,
        {
            if same_text(self.modules[i].0.name(), name) {
                return Some(i);
            }
            i += 1;
        }
        None
    }

    /// The bindings in scope, kept to be put back by `restore_scope`.
    pub fn saved_scope(&self) -> (saved: Compiler<'a>)
        requires
            self.wf(),
        ensures
            saved.wf(),
            saved.scope_view() == self.scope_view(),
    {
        let mut scope: Vec<(Symbol, (Value<'a>, DataType))> = Vec::new();
        let mut i: usize = 0;
        while i < self.scope.len()
            invariant
                i <= self.scope@.len(),
                scope@.len() == i,
                forall|k: int|
                    0 <= k < i ==> scope@[k].0@ == self.scope@[k].0@ && entry_view(scope@[k].1)
                        == entry_view(self.scope@[k].1),
            decreases self.scope@.len() - i,
        {
            let value = self.scope[i].1.0;
            scope.push((self.scope[i].0.clone(), (value, self.scope[i].1.1.clone())));
            i += 1;
        }
        let saved = Compiler { modules: Vec::new(), scope, stack: Vec::new() };
        assert(saved.scope_pairs() =~= self.scope_pairs());
        assert(saved.module_pairs() =~= Seq::<(Seq<char>, ModuleView)>::empty());
        saved
    }

    /// Puts back the bindings that `saved` holds, in place of those in
    /// scope.
    pub fn restore_scope(&mut self, saved: Compiler<'a>)
        requires
            old(self).wf(),
            saved.wf(),
        ensures
            final(self).wf(),
            final(self).scope_view() == saved.scope_view(),
            final(self).stack_view() == old(self).stack_view(),
            final(self).modules_view() == old(self).modules_view(),
            final(self).module_pairs() == old(self).module_pairs(),
    {
        self.scope = saved.scope;
        assert(self.scope_pairs() =~= saved.scope_pairs());
        assert(self.module_pairs() =~= old(self).module_pairs());
        assert(self.stack_view() =~= old(self).stack_view());
    }

    /// What `name` is bound to, if it is in scope.
    pub fn lookup(&self, name: &str) -> (r: Option<(Value<'a>, DataType)>)
        requires
            self.wf(),
        ensures
            match r {
                Some(entry) => self.scope_view().dom().contains(name@) && self.scope_view()[name@]
                    == entry_view(entry),
                None => !self.scope_view().dom().contains(name@),
            },
    {
        proof {
            lemma_key_index(self.scope_pairs(), name@, 0);
            lemma_assoc_dom(self.scope_pairs(), name@);
        }
        match self.scope_position(name) {
            Some(i) => {
                proof {
                    lemma_assoc_value(self.scope_pairs(), i as int);
                }
                Some((self.scope[i].1.0, self.scope[i].1.1.clone()))
            },
            None => None,
        }
    }

    /// Binds `name` to `entry`, in place of what it was bound to before.
    pub fn bind(&mut self, name: &str, entry: (Value<'a>, DataType))
        requires
            old(self).wf(),
        ensures
            final(self).wf(),
            final(self).scope_view() == old(self).scope_view().insert(name@, entry_view(entry)),
            final(self).stack_view() == old(self).stack_view(),
            final(self).modules_view() == old(self).modules_view(),
            final(self).module_pairs() == old(self).module_pairs(),
    {
        self.unbind(name);
        let ghost before = self.scope_pairs();
        proof {
            lemma_assoc_dom(before, name@);
            lemma_assoc_push(before, name@, entry_view(entry));
        }
        self.scope.push((Symbol::new(name), entry));
        assert(self.scope_pairs() =~= before.push((name@, entry_view(entry))));
        assert(self.scope_view() =~= old(self).scope_view().insert(name@, entry_view(entry)));
        assert(self.module_pairs() =~= old(self).module_pairs());
        assert(self.stack_view() =~= old(self).stack_view());
    }

    /// Takes `name` out of scope, if it is bound.
    pub fn unbind(&mut self, name: &str)
        requires
            old(self).wf(),
        ensures
            final(self).wf(),
            final(self).scope_view() == old(self).scope_view().remove(name@),
            final(self).stack_view() == old(self).stack_view(),
            final(self).modules_view() == old(self).modules_view(),
            final(self).module_pairs() == old(self).module_pairs(),
    {
        proof {
            lemma_key_index(self.scope_pairs(), name@, 0);
            lemma_assoc_dom(self.scope_pairs(), name@);
        }
        match self.scope_position(name) {
            Some(i) => {
                proof {
                    lemma_assoc_remove(self.scope_pairs(), i as int);
                }
                let _ = self.scope.remove(i);
                assert(self.scope_pairs() =~= old(self).scope_pairs().remove(i as int));
            },
            None => {
                assert(self.scope_view() =~= old(self).scope_view().remove(name@));
            },
        }
        assert(self.module_pairs() =~= old(self).module_pairs());
        assert(self.stack_view() =~= old(self).stack_view());
    }

    /// Pushes an entry onto the operand stack.
    pub fn push(&mut self, entry: (Value<'a>, DataType))
        requires
            old(self).wf(),
        ensures
            final(self).wf(),
            final(self).stack_view() == old(self).stack_view().push(entry_view(entry)),
            final(self).scope_view() == old(self).scope_view(),
            final(self).modules_view() == old(self).modules_view(),
            final(self).module_pairs() == old(self).module_pairs(),
    {
        self.stack.push(entry);
        assert(self.stack_view() =~= old(self).stack_view().push(entry_view(entry)));
        assert(self.scope_pairs() =~= old(self).scope_pairs());
        assert(self.module_pairs() =~= old(self).module_pairs());
    }

    /// Pops the top of the operand stack, if there is one.
    pub fn pop(&mut self) -> (r: Option<(Value<'a>, DataType)>)
        requires
            old(self).wf(),
        ensures
            final(self).wf(),
            final(self).scope_view() == old(self).scope_view(),
            final(self).modules_view() == old(self).modules_view(),
            final(self).module_pairs() == old(self).module_pairs(),
            match r {
                Some(entry) => old(self).stack_view().len() > 0 && entry_view(entry) == old(
                    self,
                ).stack_view().last() && final(self).stack_view() == old(
                    self,
                ).stack_view().drop_last(),
                None => old(self).stack_view().len() == 0 && final(self).stack_view() == old(
                    self,
                ).stack_view(),
            },
    {
        let r = self.stack.pop();
        assert(self.scope_pairs() =~= old(self).scope_pairs());
        assert(self.module_pairs() =~= old(self).module_pairs());
        if r.is_some() {
            assert(self.stack_view() =~= old(self).stack_view().drop_last());
        } else {
            assert(self.stack_view() =~= old(self).stack_view());
        }
        r
    }

    /// The depth of the operand stack.
    pub fn depth(&self) -> (n: usize)
        ensures
            n == self.stack_view().len(),
    {
        self.stack.len()
    }

    /// Drops what lies on the operand stack above `depth`.
    pub fn drop_above(&mut self, depth: usize)
        requires
            old(self).wf(),
        ensures
            final(self).wf(),
            final(self).scope_view() == old(self).scope_view(),
            final(self).modules_view() == old(self).modules_view(),
            final(self).module_pairs() == old(self).module_pairs(),
            depth <= old(self).stack_view().len() ==> final(self).stack_view() == old(
                self,
            ).stack_view().take(depth as int),
            depth > old(self).stack_view().len() ==> final(self).stack_view() == old(
                self,
            ).stack_view(),
    {
        self.stack.truncate(depth);
        assert(self.scope_pairs() =~= old(self).scope_pairs());
        assert(self.module_pairs() =~= old(self).module_pairs());
        proof {
            if depth <= old(self).stack@.len() {
                assert(self.stack_view() =~= old(self).stack_view().take(depth as int));
            } else {
                assert(self.stack_view() =~= old(self).stack_view());
            }
        }
    }

    /// The operand stack, bottom first.
    pub fn stack(&self) -> (stack: &Vec<(Value<'a>, DataType)>)
        ensures
            stack@.len() == self.stack_view().len(),
            forall|i: int| 0 <= i < stack@.len() ==> entry_view(stack@[i]) == self.stack_view()[i],
    {
        &self.stack
    }

    /// The bindings in scope, each with its name.
    pub fn scope(&self) -> (scope: &Vec<(Symbol, (Value<'a>, DataType))>)
        ensures
            scope@.len() == self.scope_pairs().len(),
            forall|i: int|
                0 <= i < scope@.len() ==> (#[trigger] scope@[i]).0@ == self.scope_pairs()[i].0
                    && entry_view(scope@[i].1) == self.scope_pairs()[i].1,
    {
        &self.scope
    }

    /// The module registered under `name`, if there is one.
    pub fn get_module(&self, name: &str) -> (r: Option<&Module<'a>>)
        requires
            self.wf(),
        ensures
            match r {
                Some(module) => self.modules_view().dom().contains(name@)
                    && self.modules_view()[name@] == module@ && module.wf(),
                None => !self.modules_view().dom().contains(name@),
            },
    {
        proof {
            lemma_key_index(self.module_pairs(), name@, 0);
            lemma_assoc_dom(self.module_pairs(), name@);
        }
        match self.module_position(name) {
            Some(i) => {
                proof {
                    lemma_assoc_value(self.module_pairs(), i as int);
                }
                Some(&self.modules[i].1)
            },
            None => None,
        }
    }

    /// Registers `module` under `name`, in place of a module registered
    /// under that name before.
    pub fn insert_module(&mut self, name: &str, module: Module<'a>)
        requires
            old(self).wf(),
            module.wf(),
        ensures
            final(self).wf(),
            final(self).modules_view() == old(self).modules_view().insert(name@, module@),
            final(self).scope_view() == old(self).scope_view(),
            final(self).stack_view() == old(self).stack_view(),
    {
        proof {
            lemma_key_index(self.module_pairs(), name@, 0);
            lemma_assoc_dom(self.module_pairs(), name@);
        }
        match self.module_position(name) {
            Some(i) => {
                proof {
                    lemma_assoc_remove(self.module_pairs(), i as int);
                }
                let _ = self.modules.remove(i);
                assert(self.module_pairs() =~= old(self).module_pairs().remove(i as int));
            },
            None => {
                assert(self.modules_view() =~= old(self).modules_view().remove(name@));
            },
        }
        let ghost before = self.module_pairs();
        proof {
            lemma_assoc_dom(before, name@);
            lemma_assoc_push(before, name@, module@);
        }
        self.modules.push((Symbol::new(name), module));
        assert(self.module_pairs() =~= before.push((name@, module@)));
        assert(self.modules_view() =~= old(self).modules_view().insert(name@, module@));
        assert(self.scope_pairs() =~= old(self).scope_pairs());
        assert(self.stack_view() =~= old(self).stack_view());
    }

    /// The registered modules, each with the name it was registered under.
    pub fn modules(&self) -> (modules: &Vec<(Symbol, Module<'a>)>)
        ensures
            modules@.len() == self.module_pairs().len(),
            forall|i: int|
                0 <= i < modules@.len() ==> (#[trigger] modules@[i]).0@ == self.module_pairs()[i].0
                    && modules@[i].1@ == self.module_pairs()[i].1,
    {
        &self.modules
    }
}

/// Bootstrapping is deterministic: two compilers fresh from `new` hold the
/// same modules, and the type table of each bootstrap module is the fixed
/// table `core_types`, with the same names and the same supertypes.
pub proof fn lemma_bootstrap_is_deterministic<'a, 'b>(first: Compiler<'a>, second: Compiler<'b>)
    requires
        first.fresh(),
        second.fresh(),
    ensures
        first.modules_view() == second.modules_view(),
        first.modules_view().dom().contains("Core"@),
        first.modules_view()["Core"@].types == crate::bootstrap::core_types(),
        second.modules_view()["Core"@].types == crate::bootstrap::core_types(),
{
}

} // verus!
