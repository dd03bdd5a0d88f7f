use crate::backend::int_basic;
use crate::emit::maker_emitted;
use crate::emit::readers_emitted;
use inkwell::values::FunctionValue;
use crate::backend::int_constant;
use crate::backend::int_value_width;
use crate::backend::low_bits;
use crate::backend::return_built;
use inkwell::values::IntValue;
use crate::backend::builder_position_at_end;
use crate::backend::builder_return_int;
use crate::backend::context_append_basic_block;
use crate::backend::context_i32_type;
use crate::backend::context_i8_type;
use crate::backend::int_const;
use crate::primitive::accepted;
use crate::backend::default_address_space;
use crate::backend::external_linkage;
use crate::backend::int_fn_type;
use crate::backend::int_ptr_type;
use crate::backend::pointer_param;
use crate::datatype::DataType;
use crate::datatype::DataTypeView;
use crate::emit::backend_decided;
use crate::emit::FarneseInternal;
use crate::emit::LLVMType;
use crate::error::CompileError;
use crate::error::ErrorView;
use crate::module::lemma_type_index;
use crate::module::declares;
use crate::module::distinct_names;
use crate::module::type_index;
use crate::module::Module;
use crate::module::ModuleView;
use crate::primitive::primitive_type;
use crate::symbol::Symbol;
use inkwell::builder::Builder;
use inkwell::context::Context;
use inkwell::types::BasicMetadataTypeEnum;
use vstd::prelude::*;

verus! {

/// The description of an abstract type with the given name and supertype.
pub open spec fn abstract_type(name: Seq<char>, supertype: Seq<char>) -> DataTypeView {
    DataTypeView {
        name,
        supertype,
        is_abstract: true,
        is_mutable: false,
        is_primitive: false,
        field_names: Seq::empty(),
        field_types: Seq::empty(),
    }
}

/// The description of a concrete type without fields.
pub open spec fn plain_type(name: Seq<char>, supertype: Seq<char>) -> DataTypeView {
    DataTypeView {
        name,
        supertype,
        is_abstract: false,
        is_mutable: false,
        is_primitive: false,
        field_names: Seq::empty(),
        field_types: Seq::empty(),
    }
}

/// The type table of the bootstrap module, in declaration order.
pub open spec fn core_types() -> Seq<DataTypeView> {
    seq![
        plain_type("Symbol"@, "Any"@),
        plain_type("DataType"@, "DataType"@),
        plain_type("Any"@, "Any"@),
        abstract_type("Number"@, "Any"@),
        abstract_type("Real"@, "Number"@),
        abstract_type("AbstractFloat"@, "Real"@),
        abstract_type("Integer"@, "Real"@),
        abstract_type("Signed"@, "Integer"@),
        abstract_type("Unsigned"@, "Integer"@),
        abstract_type("AbstractString"@, "Any"@),
        primitive_type("Float32"@, "AbstractFloat"@),
        primitive_type("Float64"@, "AbstractFloat"@),
        primitive_type("Int32"@, "Signed"@),
        primitive_type("Int64"@, "Signed"@),
        primitive_type("String"@, "AbstractString"@),
    ]
}

/// The exports of the bootstrap module, in order.
pub open spec fn core_exports() -> Seq<Seq<char>> {
    seq!["Any"@, "Float32"@, "Float64"@, "Int32"@, "Int64"@, "String"@]
}

/// The bootstrap module as the compiler's rules see it.
pub open spec fn core_view() -> ModuleView {
    ModuleView {
        name: "Core"@,
        types: core_types(),
        exports: core_exports(),
        functions: Seq::empty(),
    }
}

/// A root of a hierarchy: a type that is its own supertype.
pub open spec fn is_root(datatype: DataTypeView) -> bool {
    datatype.supertype == datatype.name
}

/// Whether following supertype links from the type called `name` arrives at
/// a root of the table within `steps` links.
pub open spec fn reaches_root(types: Seq<DataTypeView>, name: Seq<char>, steps: nat) -> bool
    decreases steps,
{
    match type_index(types, name, 0) {
        None => false,
        Some(i) => is_root(types[i]) || (steps > 0 && reaches_root(
            types,
            types[i].supertype,
            (steps - 1) as nat,
        )),
    }
}

/// The bootstrap module while it is being built.
pub struct Core<'a> {
    module: Module<'a>,
}

impl<'a> Core<'a> {
    #[verifier::type_invariant]
    spec fn untouched(&self) -> bool {
        self.module.wf() && self.module@ == (ModuleView {
            name: "Core"@,
            types: Seq::empty(),
            exports: Seq::empty(),
            functions: Seq::empty(),
        })
    }

    /// The module that is being built.
    pub closed spec fn module(&self) -> Module<'a> {
        self.module
    }

    /// An empty module called `Core`, in `context`.
    pub fn new(context: &'a Context) -> (core: Core<'a>)
        ensures
            core.module().wf(),
            core.module()@ == (ModuleView {
                name: "Core"@,
                types: Seq::empty(),
                exports: Seq::empty(),
                functions: Seq::empty(),
            }),
            core.module().context() == context,
    {
        Core { module: Module::new(context, "Core") }
    }

    /// Declares the variadic output routine `printf`, unless the backend
    /// namespace holds it already.
    pub fn basic_c_funcs(&self) {
        declare_output_routine(&self.module)
    }

    /// Begins the function `main` in `module`: it takes nothing and returns
    /// a 32-bit integer. The builder is put at the end of its entry block.
    pub fn main_func_begin(builder: &Builder<'a>, module: &Module<'a>) {
        let context = module.get_context();
        let no_params: Vec<BasicMetadataTypeEnum<'a>> = Vec::new();
        let fn_type = int_fn_type(context_i32_type(context), no_params.as_slice(), false);
        let function = module.declare("main", fn_type, None);
        let entry = context_append_basic_block(context, function, "entry");
        builder_position_at_end(builder, entry);
    }

    /// Ends the function that the builder is in by returning the 32-bit
    /// integer zero.
    pub fn main_func_end(builder: &Builder<'a>, module: &Module<'a>) -> (r: Result<
        (),
        CompileError,
    >)
        ensures
            r is Err ==> r->Err_0@ == ErrorView::Backend,
            r is Ok ==> exists|zero: IntValue<'a>|
                #![trigger int_basic(zero)]
                return_built(int_basic(zero)) && int_value_width(zero) == 32 && int_constant(zero)
                    == Some(0u64),
    {
        let zero = int_const(context_i32_type(module.get_context()), 0, false);
        assert(low_bits(0, 32) == 0) by {
            vstd::arithmetic::power2::lemma_pow2_pos(32);
        }
        let r = accepted(builder_return_int(builder, zero));
        proof {
            if r is Ok {
                assert(return_built(int_basic(zero)));
            }
        }
        r
    }

    /// Builds the bootstrap module: the output routine, the layouts of
    /// symbols and of type descriptors, the functions that make and read
    /// type descriptors, and the root type hierarchy. Only the backend can
    /// make this fail.
    pub fn bootstrap(self) -> (r: Result<Module<'a>, CompileError>)
        ensures
            r is Ok ==> r->Ok_0.wf() && r->Ok_0@ == core_view(),
            r is Ok ==> exists|maker: FunctionValue<'a>| #[trigger] maker_emitted(maker),
            r is Ok ==> exists|name: FunctionValue<'a>, parent: FunctionValue<'a>|
                #[trigger] readers_emitted(name, parent),
            r is Err ==> backend_decided(r->Err_0@),
    {
        proof {
            use_type_invariant(&self);
        }
        self.basic_c_funcs();
        let mut module = self.module;

        let symbol_sym = Symbol::new("Symbol");
        symbol_sym.create_opaque_type(&module)?;
        let sym_type = module.get_struct_type("Symbol")?;
        let _ = module.add_global(sym_type, None, "Symbol");
        proof {
            assert(module@.types =~= core_types().take(0));
            lemma_core_next_undeclared(0);
        }
        module.insert_type(concrete_type("Symbol", "Any"))?;

        let datatype = concrete_type("DataType", "DataType");
        datatype.bootstrap(&module)?;
        proof {
            assert(module@.types =~= core_types().take(1));
            lemma_core_next_undeclared(1);
        }
        module.insert_type(datatype)?;

        proof {
            assert(module@.types =~= core_types().take(2));
            lemma_core_next_undeclared(2);
        }
        declare(&mut module, concrete_type("Any", "Any"), true)?;
        proof {
            assert(module@.types =~= core_types().take(3));
            lemma_core_next_undeclared(3);
        }
        declare(&mut module, DataType::new_abstract_type("Number", "Any"), false)?;
        proof {
            assert(module@.types =~= core_types().take(4));
            lemma_core_next_undeclared(4);
        }
        declare(&mut module, DataType::new_abstract_type("Real", "Number"), false)?;
        proof {
            assert(module@.types =~= core_types().take(5));
            lemma_core_next_undeclared(5);
        }
        declare(&mut module, DataType::new_abstract_type("AbstractFloat", "Real"), false)?;
        proof {
            assert(module@.types =~= core_types().take(6));
            lemma_core_next_undeclared(6);
        }
        declare(&mut module, DataType::new_abstract_type("Integer", "Real"), false)?;
        proof {
            assert(module@.types =~= core_types().take(7));
            lemma_core_next_undeclared(7);
        }
        declare(&mut module, DataType::new_abstract_type("Signed", "Integer"), false)?;
        proof {
            assert(module@.types =~= core_types().take(8));
            lemma_core_next_undeclared(8);
        }
        declare(&mut module, DataType::new_abstract_type("Unsigned", "Integer"), false)?;
        proof {
            assert(module@.types =~= core_types().take(9));
            lemma_core_next_undeclared(9);
        }
        declare(&mut module, DataType::new_abstract_type("AbstractString", "Any"), false)?;
        proof {
            assert(module@.types =~= core_types().take(10));
            lemma_core_next_undeclared(10);
        }
        declare(&mut module, DataType::new_primitive_type("Float32", "AbstractFloat", 32), true)?;
        proof {
            assert(module@.types =~= core_types().take(11));
            lemma_core_next_undeclared(11);
        }
        declare(&mut module, DataType::new_primitive_type("Float64", "AbstractFloat", 64), true)?;
        proof {
            assert(module@.types =~= core_types().take(12));
            lemma_core_next_undeclared(12);
        }
        declare(&mut module, DataType::new_primitive_type("Int32", "Signed", 32), true)?;
        proof {
            assert(module@.types =~= core_types().take(13));
            lemma_core_next_undeclared(13);
        }
        declare(&mut module, DataType::new_primitive_type("Int64", "Signed", 64), true)?;
        proof {
            assert(module@.types =~= core_types().take(14));
            lemma_core_next_undeclared(14);
        }
        declare(&mut module, DataType::new_primitive_type("String", "AbstractString", 8), true)?;

        assert(module@.types =~= core_types());
        assert(module@.exports =~= core_exports());
        Ok(module)
    }
}

/// A concrete type without fields.
pub fn concrete_type(name: &str, supertype: &str) -> (datatype: DataType)
    ensures
        datatype@ == plain_type(name@, supertype@),
{
    let no_names: Vec<Symbol> = Vec::new();
    let no_types: Box<Vec<DataType>> = Box::new(Vec::new());
    assert(crate::symbol::symbol_names(no_names@) =~= Seq::empty());
    assert(crate::datatype::datatype_views(no_types@) =~= Seq::empty());
    DataType::new(
        Symbol::new(name),
        Symbol::new(supertype),
        false,
        false,
        false,
        no_names,
        no_types,
    )
}

/// Declares the variadic output routine `printf` in the backend namespace
/// of `module`, unless it is there already.
pub fn declare_output_routine<'a>(module: &Module<'a>) {
    if module.get_function("printf").is_err() {
        let context = module.get_context();
        let i8_type = context_i8_type(context);
        let mut params: Vec<BasicMetadataTypeEnum<'a>> = Vec::new();
        params.push(pointer_param(int_ptr_type(i8_type, default_address_space())));
        let printf_type = int_fn_type(i8_type, params.as_slice(), true);
        let _ = module.declare("printf", printf_type, Some(external_linkage()));
    }
}

/// Declares a type in `module`: the global that stands for it in the
/// backend, its entry in the type table and, if asked for, its export.
pub fn declare<'a>(module: &mut Module<'a>, datatype: DataType, export: bool) -> (r: Result<
    (),
    CompileError,
>)
    requires
        old(module).wf(),
    ensures
        final(module).wf(),
        final(module)@.name == old(module)@.name,
        final(module)@.functions == old(module)@.functions,
        r is Ok ==> final(module)@.types == old(module)@.types.push(datatype@),
        r is Ok ==> final(module)@.exports == if export {
            old(module)@.exports.push(datatype@.name)
        } else {
            old(module)@.exports
        },
        r is Err ==> final(module)@ == old(module)@,
        r is Err ==> declares(old(module)@.types, datatype@.name) && r->Err_0@
            == ErrorView::DuplicateType(datatype@.name) || r->Err_0@ == ErrorView::UndefinedType(
            "DataType"@,
        ),
{
    if module.has_type(datatype.name().name()) {
        return Err(CompileError::DuplicateType(datatype.name().name().to_owned()));
    }
    datatype.emit_ir_type(module)?;
    let name = datatype.name().clone();
    module.insert_type(datatype)?;
    if export {
        module.push_export(name);
    }
    Ok(())
}

/// The length of a name with its second and its last but one character: a
/// mark by which the names of the bootstrap hierarchy differ.
spec fn mark(name: Seq<char>) -> (nat, char, char) {
    (name.len(), name[1], name[name.len() - 2])
}

/// The names of the bootstrap hierarchy, each with its mark.
proof fn lemma_core_marks()
    ensures
        core_types().len() == 15,
        mark(core_types()[0].name) == (6nat, 'y', 'o'),
        mark(core_types()[1].name) == (8nat, 'a', 'p'),
        mark(core_types()[2].name) == (3nat, 'n', 'n'),
        mark(core_types()[3].name) == (6nat, 'u', 'e'),
        mark(core_types()[4].name) == (4nat, 'e', 'a'),
        mark(core_types()[5].name) == (13nat, 'b', 'a'),
        mark(core_types()[6].name) == (7nat, 'n', 'e'),
        mark(core_types()[7].name) == (6nat, 'i', 'e'),
        mark(core_types()[8].name) == (8nat, 'n', 'e'),
        mark(core_types()[9].name) == (14nat, 'b', 'n'),
        mark(core_types()[10].name) == (7nat, 'l', '3'),
        mark(core_types()[11].name) == (7nat, 'l', '6'),
        mark(core_types()[12].name) == (5nat, 'n', '3'),
        mark(core_types()[13].name) == (5nat, 'n', '6'),
        mark(core_types()[14].name) == (6nat, 't', 'n'),
{
    reveal_strlit("Symbol");
    reveal_strlit("DataType");
    reveal_strlit("Any");
    reveal_strlit("Number");
    reveal_strlit("Real");
    reveal_strlit("AbstractFloat");
    reveal_strlit("Integer");
    reveal_strlit("Signed");
    reveal_strlit("Unsigned");
    reveal_strlit("AbstractString");
    reveal_strlit("Float32");
    reveal_strlit("Float64");
    reveal_strlit("Int32");
    reveal_strlit("Int64");
    reveal_strlit("String");
}

/// The bootstrap hierarchy declares no name twice.
pub proof fn lemma_core_names_distinct()
    ensures
        distinct_names(core_types()),
{
    lemma_core_marks();
    let types = core_types();
    assert forall|i: int, j: int| 0 <= i < j < types.len() implies types[i].name
        != types[j].name by {
        assert(mark(types[i].name) != mark(types[j].name));
    }
}

/// No type of the bootstrap hierarchy carries the name of one declared
/// before it.
pub proof fn lemma_core_next_undeclared(k: int)
    requires
        0 <= k < core_types().len(),
    ensures
        !declares(core_types().take(k), core_types()[k].name),
{
    lemma_core_names_distinct();
    let before = core_types().take(k);
    lemma_type_index(before, core_types()[k].name, 0);
    if declares(before, core_types()[k].name) {
        let i = type_index(before, core_types()[k].name, 0).unwrap();
        assert(before[i] == core_types()[i]);
    }
}

/// In a table without repeated names, each type is found under its name.
pub proof fn lemma_index_of_declared(types: Seq<DataTypeView>, i: int, from: int)
    requires
        distinct_names(types),
        0 <= from <= i < types.len(),
    ensures
        type_index(types, types[i].name, from) == Some(i),
    decreases i - from,
{
    if from < i {
        lemma_index_of_declared(types, i, from + 1);
    }
}

/// In the bootstrap hierarchy, following supertype links from any declared
/// type arrives at a root, a type that is its own supertype, within five
/// links.
pub proof fn lemma_core_hierarchy_reaches_root(i: int)
    requires
        0 <= i < core_types().len(),
    ensures
        reaches_root(core_types(), core_types()[i].name, 5),
{
    lemma_core_names_distinct();
    let types = core_types();
    assert(types.len() == 15);
    assert forall|k: int| 0 <= k < 15 implies type_index(types, #[trigger] types[k].name, 0)
        == Some(k) by {
        lemma_index_of_declared(types, k, 0);
    }
    reveal_with_fuel(reaches_root, 2);
    assert(types[1].supertype == types[1].name);
    assert(types[2].supertype == types[2].name);
    assert(reaches_root(types, types[1].name, 0));
    assert(reaches_root(types, types[2].name, 0));
    assert(types[0].supertype == types[2].name);
    assert(reaches_root(types, types[0].name, 1));
    assert(types[3].supertype == types[2].name);
    assert(reaches_root(types, types[3].name, 1));
    assert(types[4].supertype == types[3].name);
    assert(reaches_root(types, types[4].name, 2));
    assert(types[5].supertype == types[4].name);
    assert(reaches_root(types, types[5].name, 3));
    assert(types[6].supertype == types[4].name);
    assert(reaches_root(types, types[6].name, 3));
    assert(types[7].supertype == types[6].name);
    assert(reaches_root(types, types[7].name, 4));
    assert(types[8].supertype == types[6].name);
    assert(reaches_root(types, types[8].name, 4));
    assert(types[9].supertype == types[2].name);
    assert(reaches_root(types, types[9].name, 1));
    assert(types[10].supertype == types[5].name);
    assert(reaches_root(types, types[10].name, 4));
    assert(types[11].supertype == types[5].name);
    assert(reaches_root(types, types[11].name, 4));
    assert(types[12].supertype == types[7].name);
    assert(reaches_root(types, types[12].name, 5));
    assert(types[13].supertype == types[7].name);
    assert(reaches_root(types, types[13].name, 5));
    assert(types[14].supertype == types[9].name);
    assert(reaches_root(types, types[14].name, 2));
    if i == 0 || i == 3 || i == 9 {
        lemma_reaches_root_more(types, types[i].name, 1, 5);
    } else if i == 1 || i == 2 {
        lemma_reaches_root_more(types, types[i].name, 0, 5);
    } else if i == 4 || i == 14 {
        lemma_reaches_root_more(types, types[i].name, 2, 5);
    } else if i == 5 || i == 6 {
        lemma_reaches_root_more(types, types[i].name, 3, 5);
    } else if i == 7 || i == 8 || i == 10 || i == 11 {
        lemma_reaches_root_more(types, types[i].name, 4, 5);
    }
}

/// The name that `steps` supertype links lead to from the type called
/// `name`. A name that the table does not hold leads nowhere.
pub open spec fn ancestor(types: Seq<DataTypeView>, name: Seq<char>, steps: nat) -> Seq<char>
    decreases steps,
{
    if steps == 0 {
        name
    } else {
        match type_index(types, name, 0) {
            Some(i) => ancestor(types, types[i].supertype, (steps - 1) as nat),
            None => name,
        }
    }
}

/// The place in the bootstrap hierarchy of the supertype of the type at
/// place `i`.
pub open spec fn core_parent(i: int) -> int {
    if i == 1 {
        1
    } else if i == 0 || i == 2 || i == 3 || i == 9 {
        2
    } else if i == 4 {
        3
    } else if i == 5 || i == 6 {
        4
    } else if i == 7 || i == 8 {
        6
    } else if i == 10 || i == 11 {
        5
    } else if i == 12 || i == 13 {
        7
    } else {
        9
    }
}

/// A measure that falls along every supertype link of the bootstrap
/// hierarchy that does not start at a root.
pub open spec fn core_rank(i: int) -> int {
    if i == 0 {
        3
    } else {
        i
    }
}

/// `core_parent` gives the supertype of each type of the bootstrap
/// hierarchy, and a type is a root exactly if it is its own parent.
pub proof fn lemma_core_parents(i: int)
    requires
        0 <= i < core_types().len(),
    ensures
        0 <= core_parent(i) < core_types().len(),
        core_types()[i].supertype == core_types()[core_parent(i)].name,
        is_root(core_types()[i]) <==> core_parent(i) == i,
        core_rank(core_parent(i)) <= core_rank(i),
        core_parent(i) != i ==> core_rank(core_parent(i)) < core_rank(i),
{
    lemma_core_names_distinct();
    let types = core_types();
    assert(types.len() == 15);
    assert(types[0].supertype == types[2].name);
    assert(types[1].supertype == types[1].name);
    assert(types[2].supertype == types[2].name);
    assert(types[3].supertype == types[2].name);
    assert(types[4].supertype == types[3].name);
    assert(types[5].supertype == types[4].name);
    assert(types[6].supertype == types[4].name);
    assert(types[7].supertype == types[6].name);
    assert(types[8].supertype == types[6].name);
    assert(types[9].supertype == types[2].name);
    assert(types[10].supertype == types[5].name);
    assert(types[11].supertype == types[5].name);
    assert(types[12].supertype == types[7].name);
    assert(types[13].supertype == types[7].name);
    assert(types[14].supertype == types[9].name);
    let p = core_parent(i);
    if p != i {
        if p < i {
            assert(types[p].name != types[i].name);
        } else {
            assert(types[i].name != types[p].name);
        }
    }
}

/// Supertype links in the bootstrap hierarchy lead to types of the
/// hierarchy, never up in rank, and down in rank from a type that is no
/// root.
pub proof fn lemma_core_ancestor_ranks(i: int, steps: nat) -> (k: int)
    requires
        0 <= i < core_types().len(),
    ensures
        0 <= k < core_types().len(),
        core_types()[k].name == ancestor(core_types(), core_types()[i].name, steps),
        core_rank(k) <= core_rank(i),
        steps >= 1 && !is_root(core_types()[i]) ==> core_rank(k) < core_rank(i),
    decreases steps,
{
    if steps == 0 {
        i
    } else {
        lemma_core_names_distinct();
        lemma_index_of_declared(core_types(), i, 0);
        lemma_core_parents(i);
        lemma_core_ancestor_ranks(core_parent(i), (steps - 1) as nat)
    }
}

/// In the bootstrap hierarchy supertype links lead in a circle at a root
/// only: a type that one or more links lead back to is its own supertype.
pub proof fn lemma_core_hierarchy_has_no_cycle(i: int, steps: nat)
    requires
        0 <= i < core_types().len(),
        steps >= 1,
        ancestor(core_types(), core_types()[i].name, steps) == core_types()[i].name,
    ensures
        is_root(core_types()[i]),
{
    lemma_core_names_distinct();
    let k = lemma_core_ancestor_ranks(i, steps);
    if k < i {
        assert(core_types()[k].name != core_types()[i].name);
    } else if i < k {
        assert(core_types()[i].name != core_types()[k].name);
    }
}

/// More links never hurt: what reaches a root within `steps` links reaches
/// it within any larger number.
pub proof fn lemma_reaches_root_more(types: Seq<DataTypeView>, name: Seq<char>, steps: nat, more: nat)
    requires
        reaches_root(types, name, steps),
        steps <= more,
    ensures
        reaches_root(types, name, more),
    decreases steps,
{
    let i = type_index(types, name, 0).unwrap();
    if !is_root(types[i]) {
        lemma_reaches_root_more(types, types[i].supertype, (steps - 1) as nat, (more - 1) as nat);
    }
}

} // verus!
