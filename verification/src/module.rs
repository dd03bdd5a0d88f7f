use crate::backend::context_create_builder;
use crate::backend::context_create_module;
use crate::backend::context_i32_type;
use crate::backend::context_i64_type;
use crate::backend::context_i8_type;
use crate::backend::default_address_space;
use crate::backend::external_linkage;
use crate::backend::int_fn_type;
use crate::backend::int_ptr_type;
use crate::assoc::key_index;
use crate::assoc::lemma_key_index;
use crate::backend::copy_of;
use crate::backend::created_as;
use crate::backend::declared_as;
use crate::backend::linked_into;
use crate::backend::float_function_type;
use crate::backend::float_kind_name;
use crate::backend::float_param_type;
use crate::backend::int_function_type;
use crate::backend::int_param_type;
use crate::backend::int_type_width;
use crate::backend::pointee_width;
use crate::backend::pointer_param_type;
use crate::backend::type_of_function;
use inkwell::types::FloatType;
use crate::backend::found_as;
use crate::backend::function_type_of;
use crate::backend::plain_function;
use crate::backend::scalar_type;
use crate::backend::takes_scalars;
use crate::backend::module_add_function;
use crate::backend::same_function_type;
use crate::compile::function_type;
use crate::datatype::scalar_of;
use crate::datatype::ScalarKind;
use crate::backend::module_add_global;
use crate::backend::module_checked_clone;
use crate::backend::module_get_function;
use crate::backend::module_get_global;
use crate::backend::module_get_struct_type;
use crate::backend::module_link_in;
use crate::backend::modules_share_context;
use crate::backend::module_print_to_string;
use crate::backend::pointer_param;
use crate::backend::same_context;
use crate::datatype::datatype_views;
use crate::datatype::DataType;
use crate::datatype::DataTypeView;
use crate::error::CompileError;
use crate::error::ErrorView;
use crate::symbol::same_text;
use crate::symbol::symbol_names;
use crate::symbol::Symbol;
use inkwell::builder::Builder;
use inkwell::context::Context;
use inkwell::module::Linkage;
use inkwell::module::Module as BackendModule;
use inkwell::types::BasicMetadataTypeEnum;
use inkwell::types::FunctionType;
use inkwell::types::IntType;
use inkwell::types::PointerType;
use inkwell::types::StructType;
use inkwell::values::FunctionValue;
use inkwell::values::GlobalValue;
use inkwell::AddressSpace;
use vstd::prelude::*;

verus! {

/// The position of the type called `name` in a type table, if it holds one.
pub open spec fn type_index(types: Seq<DataTypeView>, name: Seq<char>, from: int) -> Option<int>
    decreases types.len() - from,
{
    if from < 0 || from >= types.len() {
        None
    } else if types[from].name == name {
        Some(from)
    } else {
        type_index(types, name, from + 1)
    }
}

/// Whether a type table holds a type called `name`.
pub open spec fn declares(types: Seq<DataTypeView>, name: Seq<char>) -> bool {
    type_index(types, name, 0) is Some
}

/// The type called `name` in a type table that holds one.
pub open spec fn declared_type(types: Seq<DataTypeView>, name: Seq<char>) -> DataTypeView {
    types[type_index(types, name, 0).unwrap()]
}

/// No two types of a type table have the same name.
pub open spec fn distinct_names(types: Seq<DataTypeView>) -> bool {
    forall|i: int, j: int| 0 <= i < j < types.len() ==> types[i].name != types[j].name
}

/// What `type_index` finds is the first type of that name from `from` on,
/// and it finds none only where there is none.
pub proof fn lemma_type_index(types: Seq<DataTypeView>, name: Seq<char>, from: int)
    requires
        0 <= from,
    ensures
        match type_index(types, name, from) {
            Some(i) => from <= i < types.len() && types[i].name == name && forall|k: int|
                from <= k < i ==> (#[trigger] types[k]).name != name,
            None => forall|k: int| from <= k < types.len() ==> (#[trigger] types[k]).name != name,
        },
    decreases types.len() - from,
{
    if from < types.len() && types[from].name != name {
        lemma_type_index(types, name, from + 1);
    }
}

/// The first export, from `from` on, that names a type of `target`.
pub open spec fn first_conflict(target: Seq<DataTypeView>, exports: Seq<Seq<char>>, from: int) -> Option<int>
    decreases exports.len() - from,
{
    if from < 0 || from >= exports.len() {
        None
    } else if declares(target, exports[from]) {
        Some(from)
    } else {
        first_conflict(target, exports, from + 1)
    }
}

/// A type table after the first `upto` exports of a linked module have been
/// taken over: each exported type is appended once, in export order. An
/// export that names no type of the source, such as a function, brings no
/// type with it.
pub open spec fn linked_types(
    target: Seq<DataTypeView>,
    source: Seq<DataTypeView>,
    exports: Seq<Seq<char>>,
    upto: int,
) -> Seq<DataTypeView>
    decreases upto,
{
    if upto <= 0 {
        target
    } else {
        let before = linked_types(target, source, exports, upto - 1);
        if declares(before, exports[upto - 1]) || !declares(source, exports[upto - 1]) {
            before
        } else {
            before.push(declared_type(source, exports[upto - 1]))
        }
    }
}

/// A type that has just been declared is found under its name, as it was
/// declared, and every type declared before is found as before.
pub proof fn lemma_declared_then_found(types: Seq<DataTypeView>, datatype: DataTypeView)
    requires
        !declares(types, datatype.name),
    ensures
        declares(types.push(datatype), datatype.name),
        declared_type(types.push(datatype), datatype.name) == datatype,
        forall|name: Seq<char>|
            declares(types, name) ==> #[trigger] declares(types.push(datatype), name)
                && declared_type(types.push(datatype), name) == declared_type(types, name),
        distinct_names(types) ==> distinct_names(types.push(datatype)),
{
    let more = types.push(datatype);
    lemma_type_index(types, datatype.name, 0);
    lemma_type_index(more, datatype.name, 0);
    assert(more[types.len() as int].name == datatype.name);
    assert forall|name: Seq<char>| declares(types, name) implies #[trigger] declares(more, name)
        && declared_type(more, name) == declared_type(types, name) by {
        lemma_type_index(types, name, 0);
        lemma_type_index(more, name, 0);
        let i = type_index(types, name, 0).unwrap();
        assert(more[i].name == name);
        assert(forall|k: int| 0 <= k < i ==> more[k] == types[k]);
    }
    if distinct_names(types) {
        assert forall|i: int, j: int| 0 <= i < j < more.len() implies more[i].name
            != more[j].name by {
            if j == types.len() {
                assert(types[i].name != datatype.name);
            } else {
                assert(more[i] == types[i] && more[j] == types[j]);
            }
        }
    }
}

/// Linking only appends: the types of the target stay where they were.
pub proof fn lemma_linked_types_extend(
    target: Seq<DataTypeView>,
    source: Seq<DataTypeView>,
    exports: Seq<Seq<char>>,
    upto: int,
)
    ensures
        target.len() <= linked_types(target, source, exports, upto).len(),
        linked_types(target, source, exports, upto).take(target.len() as int) == target,
    decreases upto,
{
    if upto > 0 {
        lemma_linked_types_extend(target, source, exports, upto - 1);
        let before = linked_types(target, source, exports, upto - 1);
        let after = linked_types(target, source, exports, upto);
        assert(after.take(target.len() as int) =~= before.take(target.len() as int));
    } else {
        assert(target.take(target.len() as int) =~= target);
    }
}

/// After a link without conflict, each export taken over so far that names
/// a type of the source names that type in the table.
pub proof fn lemma_linked_types_hold_exports(
    target: Seq<DataTypeView>,
    source: Seq<DataTypeView>,
    exports: Seq<Seq<char>>,
    upto: int,
    k: int,
)
    requires
        0 <= k < upto <= exports.len(),
        first_conflict(target, exports, 0) is None,
        declares(source, exports[k]),
    ensures
        declares(linked_types(target, source, exports, upto), exports[k]),
        declared_type(linked_types(target, source, exports, upto), exports[k]) == declared_type(
            source,
            exports[k],
        ),
    decreases upto,
{
    let before = linked_types(target, source, exports, upto - 1);
    let last = exports[upto - 1];
    if declares(before, last) || !declares(source, last) {
        if k < upto - 1 {
            lemma_linked_types_hold_exports(target, source, exports, upto - 1, k);
        } else {
            lemma_linked_types_only_exports(target, source, exports, upto - 1, last);
            lemma_no_conflict(target, exports, 0, upto - 1);
            let j = choose|j: int| 0 <= j < upto - 1 && exports[j] == last;
            lemma_linked_types_hold_exports(target, source, exports, upto - 1, j);
        }
    } else {
        lemma_type_index(source, last, 0);
        lemma_declared_then_found(before, declared_type(source, last));
        if k < upto - 1 {
            lemma_linked_types_hold_exports(target, source, exports, upto - 1, k);
        }
    }
}

/// A type that a link has brought into the table is a type of the target
/// or one that an export named.
pub proof fn lemma_linked_types_only_exports(
    target: Seq<DataTypeView>,
    source: Seq<DataTypeView>,
    exports: Seq<Seq<char>>,
    upto: int,
    name: Seq<char>,
)
    requires
        0 <= upto <= exports.len(),
        declares(linked_types(target, source, exports, upto), name),
    ensures
        declares(target, name) || exists|j: int| 0 <= j < upto && exports[j] == name,
    decreases upto,
{
    if upto > 0 {
        let before = linked_types(target, source, exports, upto - 1);
        let last = exports[upto - 1];
        if declares(before, name) {
            lemma_linked_types_only_exports(target, source, exports, upto - 1, name);
        } else {
            lemma_type_index(source, last, 0);
            let added = declared_type(source, last);
            lemma_type_index(before.push(added), name, 0);
            lemma_type_index(before, name, 0);
            let i = type_index(before.push(added), name, 0).unwrap();
            if i < before.len() {
                assert(before[i].name == name);
                assert(false);
            }
            assert(exports[upto - 1] == name);
        }
    }
}

/// Where no export conflicts with the target, none of them names a type
/// of the target.
pub proof fn lemma_no_conflict(target: Seq<DataTypeView>, exports: Seq<Seq<char>>, from: int, at: int)
    requires
        0 <= from <= at < exports.len(),
        first_conflict(target, exports, from) is None,
    ensures
        !declares(target, exports[at]),
    decreases at - from,
{
    if from < at {
        lemma_no_conflict(target, exports, from + 1, at);
    }
}

/// What a function takes and returns, as it was declared.
#[derive(Debug)]
pub struct Signature {
    pub params: Vec<DataType>,
    pub result: DataType,
}

/// The description of a signature.
#[verifier::ext_equal]
pub struct SignatureView {
    pub params: Seq<DataTypeView>,
    pub result: DataTypeView,
}

impl View for Signature {
    type V = SignatureView;

    open spec fn view(&self) -> SignatureView {
        SignatureView { params: datatype_views(self.params@), result: self.result@ }
    }
}

impl Clone for Signature {
    fn clone(&self) -> (signature: Signature)
        ensures
            signature@ == self@,
    {
        let mut params: Vec<DataType> = Vec::new();
        let mut i: usize = 0;
        while i < self.params.len()
            invariant
                i <= self.params@.len(),
                params@.len() == i,
                forall|k: int| 0 <= k < i ==> params@[k]@ == self.params@[k]@,
            decreases self.params@.len() - i,
        {
            params.push(self.params[i].clone());
            i += 1;
        }
        let signature = Signature { params, result: self.result.clone() };
        assert(signature@.params =~= self@.params);
        signature
    }
}

/// The signatures of a function table, each under the name of its function.
pub open spec fn signature_views(functions: Seq<(Symbol, Signature)>) -> Seq<(Seq<char>, SignatureView)> {
    Seq::new(functions.len(), |i: int| (functions[i].0@, functions[i].1@))
}

/// The signature under which a call of `name` is compiled: that of the
/// first function declared under the name.
pub open spec fn signature_of(functions: Seq<(Seq<char>, SignatureView)>, name: Seq<char>) -> Option<
    SignatureView,
> {
    match key_index(functions, name, 0) {
        Some(i) => Some(functions[i].1),
        None => None,
    }
}

/// In two function tables joined, a call goes to the first table's function
/// where it holds the name, and to the second table's otherwise.
pub proof fn lemma_signature_of_joined(
    first: Seq<(Seq<char>, SignatureView)>,
    second: Seq<(Seq<char>, SignatureView)>,
    name: Seq<char>,
)
    ensures
        signature_of(first + second, name) == match signature_of(first, name) {
            Some(signature) => Some(signature),
            None => signature_of(second, name),
        },
{
    let joined = first + second;
    lemma_key_index(first, name, 0);
    lemma_key_index(second, name, 0);
    lemma_key_index(joined, name, 0);
    assert forall|k: int| 0 <= k < first.len() implies joined[k] == first[k] by {}
    assert forall|k: int| 0 <= k < second.len() implies joined[first.len() + k] == second[k] by {}
    match key_index(first, name, 0) {
        Some(i) => {
            assert(joined[i].0 == name);
            let j = key_index(joined, name, 0).unwrap();
            if j < i {
                assert(first[j].0 != name);
            }
        },
        None => {
            match key_index(second, name, 0) {
                Some(i) => {
                    assert(joined[first.len() + i].0 == name);
                    let j = key_index(joined, name, 0).unwrap();
                    if j < first.len() {
                        assert(first[j].0 != name);
                    } else if j < first.len() + i {
                        assert(second[j - first.len()].0 != name);
                    }
                },
                None => {
                    if key_index(joined, name, 0) is Some {
                        let j = key_index(joined, name, 0).unwrap();
                        if j < first.len() {
                            assert(first[j].0 != name);
                        } else {
                            assert(second[j - first.len()].0 != name);
                        }
                    }
                },
            }
        },
    }
}

/// A function declared is found under its name with its signature, unless
/// the table held the name before: then the earlier function stays.
pub proof fn lemma_declared_function_is_found(
    functions: Seq<(Seq<char>, SignatureView)>,
    name: Seq<char>,
    signature: SignatureView,
    other: Seq<char>,
)
    ensures
        signature_of(functions.push((name, signature)), name) == match signature_of(functions, name) {
            Some(earlier) => Some(earlier),
            None => Some(signature),
        },
        other != name ==> signature_of(functions.push((name, signature)), other) == signature_of(
            functions,
            other,
        ),
{
    let one = seq![(name, signature)];
    assert(functions.push((name, signature)) =~= functions + one);
    lemma_signature_of_joined(functions, one, name);
    lemma_signature_of_joined(functions, one, other);
    assert(key_index(one, name, 0) == Some(0int));
    assert(key_index(one, other, 1) is None);
}

/// Whether a parameter type of the backend is the scalar representation
/// `kind`: the 32-bit or the 64-bit float type, the 32-bit or the 64-bit
/// integer type, or, for text, the type of pointers to bytes.
pub open spec fn kind_type<'a>(kind: ScalarKind, ty: BasicMetadataTypeEnum<'a>) -> bool {
    match kind {
        ScalarKind::Float32 => exists|float: FloatType<'a>|
            #[trigger] float_param_type(float) == ty && float_kind_name(float) == "float"@,
        ScalarKind::Float64 => exists|float: FloatType<'a>|
            #[trigger] float_param_type(float) == ty && float_kind_name(float) == "double"@,
        ScalarKind::Int32 => exists|integer: IntType<'a>|
            #[trigger] int_param_type(integer) == ty && int_type_width(integer) == 32,
        ScalarKind::Int64 => exists|integer: IntType<'a>|
            #[trigger] int_param_type(integer) == ty && int_type_width(integer) == 64,
        ScalarKind::String => exists|pointer: PointerType<'a>|
            #[trigger] pointer_param_type(pointer) == ty && pointee_width(pointer) == 8,
    }
}

/// Whether a function type of the backend takes `params`, in this order
/// and no more, and returns a number of the representation `kind`.
pub open spec fn result_type<'a>(
    kind: ScalarKind,
    params: Seq<BasicMetadataTypeEnum<'a>>,
    ty: FunctionType<'a>,
) -> bool {
    match kind {
        ScalarKind::Float32 => exists|float: FloatType<'a>|
            #[trigger] float_function_type(ty, float, params, false) && float_kind_name(float)
                == "float"@,
        ScalarKind::Float64 => exists|float: FloatType<'a>|
            #[trigger] float_function_type(ty, float, params, false) && float_kind_name(float)
                == "double"@,
        ScalarKind::Int32 => exists|integer: IntType<'a>|
            #[trigger] int_function_type(ty, integer, params, false) && int_type_width(integer)
                == 32,
        ScalarKind::Int64 => exists|integer: IntType<'a>|
            #[trigger] int_function_type(ty, integer, params, false) && int_type_width(integer)
                == 64,
        ScalarKind::String => false,
    }
}

/// Whether `params` are the scalar representations of the parameters of a
/// signature, in order.
pub open spec fn parameter_types<'a>(signature: SignatureView, params: Seq<BasicMetadataTypeEnum<'a>>) -> bool {
    params.len() == signature.params.len() && forall|i: int|
        0 <= i < params.len() ==> scalar_of(signature.params[i].name) is Some && kind_type(
            scalar_of(signature.params[i].name).unwrap(),
            #[trigger] params[i],
        )
}

/// Whether a function type of the backend is that of a signature: it
/// takes the scalar representation of each parameter, in order, and
/// returns that of the result.
pub open spec fn type_for<'a>(signature: SignatureView, ty: FunctionType<'a>) -> bool {
    scalar_of(signature.result.name) is Some && exists|params: Seq<BasicMetadataTypeEnum<'a>>|
        #![trigger parameter_types(signature, params)]
        parameter_types(signature, params) && result_type(
            scalar_of(signature.result.name).unwrap(),
            params,
            ty,
        )
}

/// Whether a function type of the backend is that of the output routine:
/// it takes a pointer to bytes and any number of further values, and
/// returns an 8-bit integer.
pub open spec fn output_type<'a>(ty: FunctionType<'a>) -> bool {
    exists|integer: IntType<'a>, pointer: PointerType<'a>|
        #![trigger int_function_type(ty, integer, seq![pointer_param_type(pointer)], true)]
        int_function_type(ty, integer, seq![pointer_param_type(pointer)], true)
            && int_type_width(integer) == 8 && pointee_width(pointer) == 8
}

/// Whether `function` is the output routine of a backend namespace: the
/// backend gave it when `printf` was declared or looked up, and it takes a
/// pointer to bytes and any number of further values and returns an 8-bit
/// integer.
pub open spec fn is_output_routine<'a>(function: FunctionValue<'a>) -> bool {
    (declared_as(function, "printf"@) || found_as(function, "printf"@)) && plain_function(function)
        && output_type(type_of_function(function))
}

/// The first fault among the types of a signature, from parameter `from`
/// on: a type without a scalar representation, or text as the result.
pub open spec fn kinds_fault(signature: SignatureView, from: int) -> Option<ErrorView>
    decreases signature.params.len() - from,
{
    if 0 <= from < signature.params.len() {
        if scalar_of(signature.params[from].name) is None {
            Some(ErrorView::UnsupportedPrimitive(signature.params[from].name))
        } else {
            kinds_fault(signature, from + 1)
        }
    } else if scalar_of(signature.result.name) is None {
        Some(ErrorView::UnsupportedPrimitive(signature.result.name))
    } else if scalar_of(signature.result.name) == Some(ScalarKind::String) {
        Some(ErrorView::TypeMismatch)
    } else {
        None
    }
}

/// What a module is to the compiler's rules: its name, its type table in
/// declaration order, its exports, and the functions that were declared in
/// it, in declaration order, each with its signature.
#[verifier::ext_equal]
pub struct ModuleView {
    pub name: Seq<char>,
    pub types: Seq<DataTypeView>,
    pub exports: Seq<Seq<char>>,
    pub functions: Seq<(Seq<char>, SignatureView)>,
}

/// A named compilation unit: a type table, an export list, and a namespace
/// of the backend.
#[derive(Debug)]
pub struct Module<'a> {
    context: &'a Context,
    exports: Vec<Symbol>,
    functions: Vec<(Symbol, Signature)>,
    module: BackendModule<'a>,
    routine: FunctionValue<'a>,
    name: Symbol,
    types: Vec<DataType>,
}

impl<'a> View for Module<'a> {
    type V = ModuleView;

    closed spec fn view(&self) -> ModuleView {
        ModuleView {
            name: self.name@,
            types: datatype_views(self.types@),
            exports: symbol_names(self.exports@),
            functions: signature_views(self.functions@),
        }
    }
}

/// The outcome of looking a function up in the backend namespace.
pub fn function_or_undefined<'a>(found: Option<FunctionValue<'a>>, name: &str) -> (r: Result<
    FunctionValue<'a>,
    CompileError,
>)
    ensures
        found is Some ==> r == Ok::<FunctionValue<'a>, CompileError>(found->0),
        found is None ==> r is Err && r->Err_0@ == ErrorView::UndefinedFunction(name@),
{
    match found {
        Some(function) => Ok(function),
        None => Err(CompileError::UndefinedFunction(name.to_owned())),
    }
}

/// The outcome of looking a global up in the backend namespace.
pub fn global_or_undefined<'a>(found: Option<GlobalValue<'a>>, name: &str) -> (r: Result<
    GlobalValue<'a>,
    CompileError,
>)
    ensures
        found is Some ==> r == Ok::<GlobalValue<'a>, CompileError>(found->0),
        found is None ==> r is Err && r->Err_0@ == ErrorView::UndefinedSymbol(name@),
{
    match found {
        Some(global) => Ok(global),
        None => Err(CompileError::UndefinedSymbol(name.to_owned())),
    }
}

/// The outcome of looking a struct layout up in the backend namespace.
pub fn layout_or_undefined<'a>(found: Option<StructType<'a>>, name: &str) -> (r: Result<
    StructType<'a>,
    CompileError,
>)
    ensures
        found is Some ==> r == Ok::<StructType<'a>, CompileError>(found->0),
        found is None ==> r is Err && r->Err_0@ == ErrorView::UndefinedType(name@),
{
    match found {
        Some(layout) => Ok(layout),
        None => Err(CompileError::UndefinedType(name.to_owned())),
    }
}

/// The output routine `printf` of a backend namespace, where it has the
/// type that a module declares it with.
pub fn find_output_routine<'a>(context: &'a Context, namespace: &BackendModule<'a>) -> (r: Result<
    FunctionValue<'a>,
    CompileError,
>)
    ensures
        r is Err ==> r->Err_0@ == ErrorView::UndefinedFunction("printf"@) || r->Err_0@
            == ErrorView::TypeMismatch,
        r is Ok ==> found_as(r->Ok_0, "printf"@) && is_output_routine(r->Ok_0),
{
    let routine = function_or_undefined(module_get_function(namespace, "printf"), "printf")?;
    let i8_type = context_i8_type(context);
    let pointer = int_ptr_type(i8_type, default_address_space());
    let mut params: Vec<BasicMetadataTypeEnum<'a>> = Vec::new();
    params.push(pointer_param(pointer));
    let declared = int_fn_type(i8_type, params.as_slice(), true);
    assert(params@ =~= seq![pointer_param_type(pointer)]);
    assert(int_function_type(declared, i8_type, seq![pointer_param_type(pointer)], true));
    if same_function_type(function_type_of(routine), declared) {
        Ok(routine)
    } else {
        Err(CompileError::TypeMismatch)
    }
}

impl<'a> Module<'a> {
    /// The type table holds no name twice, and the backend namespace holds
    /// the output routine `printf`.
    pub open spec fn wf(&self) -> bool {
        distinct_names(self@.types) && is_output_routine(self.output_routine())
    }

    /// The output routine `printf` of the backend namespace, as the backend
    /// gave it when the module was made.
    pub closed spec fn output_routine(&self) -> FunctionValue<'a> {
        self.routine
    }

    /// The context that the module lives in.
    pub closed spec fn context(&self) -> &'a Context {
        self.context
    }

    /// The backend namespace of the module.
    pub closed spec fn namespace(&self) -> BackendModule<'a> {
        self.module
    }

    /// A module with an empty type table, export list and function table.
    /// Its backend namespace holds the variadic output routine `printf`,
    /// which is no function of the table.
    pub fn new(context: &'a Context, name: &str) -> (module: Module<'a>)
        ensures
            module.wf(),
            module@ == (ModuleView {
                name: name@,
                types: Seq::empty(),
                exports: Seq::empty(),
                functions: Seq::empty(),
            }),
            module.context() == context,
            created_as(module.namespace(), name@),
    {
        let backend = context_create_module(context, name);
        let i8_type = context_i8_type(context);
        let pointer = int_ptr_type(i8_type, default_address_space());
        let mut params: Vec<BasicMetadataTypeEnum<'a>> = Vec::new();
        params.push(pointer_param(pointer));
        let printf_type = int_fn_type(i8_type, params.as_slice(), true);
        let routine = module_add_function(&backend, "printf", printf_type, Some(external_linkage()));
        proof {
            assert(params@ =~= seq![pointer_param_type(pointer)]);
            assert(int_function_type(printf_type, i8_type, seq![pointer_param_type(pointer)], true));
            assert(is_output_routine(routine));
        }
        let module = Module {
            context,
            exports: Vec::new(),
            functions: Vec::new(),
            module: backend,
            routine,
            name: Symbol::new(name),
            types: Vec::new(),
        };
        assert(module@.types =~= Seq::empty());
        assert(module@.exports =~= Seq::empty());
        assert(module@.functions =~= Seq::empty());
        module
    }

    /// The backend type of a function with this signature: each parameter
    /// and the result in the scalar representation of its type.
    pub fn signature_type(&self, signature: &Signature) -> (r: Result<FunctionType<'a>, CompileError>)
        ensures
            match kinds_fault(signature@, 0) {
                Some(e) => r is Err && r->Err_0@ == e,
                None => r is Ok,
            },
            r is Ok ==> type_for(signature@, r->Ok_0) && takes_scalars(r->Ok_0),
    {
        let mut params: Vec<BasicMetadataTypeEnum<'a>> = Vec::new();
        let mut i: usize = 0;
        while i < signature.params.len()
            invariant
                i <= signature.params@.len(),
                params@.len() == i,
                kinds_fault(signature@, 0) == kinds_fault(signature@, i as int),
                forall|k: int|
                    0 <= k < i ==> scalar_type(#[trigger] params@[k]) && scalar_of(
                        signature@.params[k].name,
                    ) is Some && kind_type(
                        scalar_of(signature@.params[k].name).unwrap(),
                        params@[k],
                    ),
            decreases signature.params@.len() - i,
        {
            params.push(signature.params[i].get_ir_value_type(self)?);
            i += 1;
        }
        let kind = signature.result.scalar_kind()?;
        let r = function_type(self, kind, &params);
        proof {
            if r is Ok {
                assert(parameter_types(signature@, params@));
            }
        }
        r
    }

    /// Declares a function called `name` with the given signature in the
    /// backend namespace, and enters it in the function table. The backend
    /// gives a function another name where `name` is taken; a call of `name`
    /// then goes to the function that was declared first.
    pub fn add_function(&mut self, name: &str, signature: Signature, linkage: Option<Linkage>) -> (r:
        Result<FunctionValue<'a>, CompileError>)
        ensures
            final(self).output_routine() == old(self).output_routine(),
            final(self)@.name == old(self)@.name,
            final(self)@.types == old(self)@.types,
            final(self)@.exports == old(self)@.exports,
            final(self).context() == old(self).context(),
            match kinds_fault(signature@, 0) {
                Some(e) => r is Err && r->Err_0@ == e && final(self)@.functions
                    == old(self)@.functions,
                None => r is Ok && final(self)@.functions == old(self)@.functions.push(
                    (name@, signature@),
                ),
            },
            r is Ok ==> declared_as(r->Ok_0, name@) && plain_function(r->Ok_0) && type_for(
                signature@,
                type_of_function(r->Ok_0),
            ),
    {
        let ty = self.signature_type(&signature)?;
        let function = module_add_function(&self.module, name, ty, linkage);
        let ghost before = self@.functions;
        self.functions.push((Symbol::new(name), signature));
        assert(self@.functions =~= before.push((name@, signature@)));
        Ok(function)
    }

    /// Declares a routine of the runtime in the backend namespace. It is no
    /// function of the table, so no call in a program reaches it.
    pub(crate) fn declare(&self, name: &str, func: FunctionType<'a>, opt: Option<Linkage>) -> (function:
        FunctionValue<'a>)
        ensures
            declared_as(function, name@),
            type_of_function(function) == func,
            takes_scalars(func) ==> plain_function(function),
    {
        module_add_function(&self.module, name, func, opt)
    }

    /// The signature under which a call of `name` is compiled.
    pub fn get_signature(&self, name: &str) -> (r: Option<&Signature>)
        ensures
            match signature_of(self@.functions, name@) {
                Some(signature) => r is Some && r->Some_0@ == signature,
                None => r is None,
            },
    {
        let mut i: usize = 0;
        while i < self.functions.len()
            invariant
                i <= self.functions@.len(),
                key_index(self@.functions, name@, 0) == key_index(self@.functions, name@, i as int),
            decreases self.functions@.len() - i,
        {
            if same_text(self.functions[i].0.name(), name) {
                return Some(&self.functions[i].1);
            }
            i += 1;
        }
        None
    }

    /// The function of the backend namespace called `name`, where it has
    /// the backend type of `signature`.
    pub fn get_function_as(&self, name: &str, signature: &Signature) -> (r: Result<
        FunctionValue<'a>,
        CompileError,
    >)
        ensures
            kinds_fault(signature@, 0) matches Some(e) ==> r is Err && r->Err_0@ == e,
            r is Err ==> r->Err_0@ == ErrorView::UndefinedFunction(name@) || r->Err_0@
                == ErrorView::TypeMismatch || kinds_fault(signature@, 0) == Some(r->Err_0@),
            r is Ok ==> found_as(r->Ok_0, name@) && plain_function(r->Ok_0) && type_for(
                signature@,
                type_of_function(r->Ok_0),
            ),
    {
        let expected = self.signature_type(signature)?;
        let function = self.get_function(name)?;
        if same_function_type(function_type_of(function), expected) {
            Ok(function)
        } else {
            Err(CompileError::TypeMismatch)
        }
    }

    /// Declares a global in the backend namespace.
    pub fn add_global(
        &self,
        datatype: StructType<'a>,
        address_space: Option<AddressSpace>,
        name: &str,
    ) -> GlobalValue<'a> {
        module_add_global(&self.module, datatype, address_space, name)
    }

    /// A new instruction builder of the module's context.
    pub fn create_builder(&self) -> Builder<'a> {
        context_create_builder(self.context)
    }

    /// The context that the module lives in.
    pub fn get_context(&self) -> (context: &'a Context)
        ensures
            context == self.context(),
    {
        self.context
    }

    /// The function called `name` in the backend namespace.
    pub fn get_function(&self, name: &str) -> (r: Result<FunctionValue<'a>, CompileError>)
        ensures
            r is Ok ==> found_as(r->Ok_0, name@),
            r is Err ==> r->Err_0@ == ErrorView::UndefinedFunction(name@),
    {
        function_or_undefined(module_get_function(&self.module, name), name)
    }

    /// The output routine `printf` of the backend namespace, where it has
    /// the type that `new` declared it with.
    pub fn get_output_routine(&self) -> (r: Result<FunctionValue<'a>, CompileError>)
        ensures
            r is Err ==> r->Err_0@ == ErrorView::UndefinedFunction("printf"@) || r->Err_0@
                == ErrorView::TypeMismatch,
            r is Ok ==> found_as(r->Ok_0, "printf"@) && is_output_routine(r->Ok_0),
    {
        find_output_routine(self.context, &self.module)
    }

    /// The global called `name` in the backend namespace.
    pub fn get_global(&self, name: &str) -> (r: Result<GlobalValue<'a>, CompileError>)
        ensures
            r is Err ==> r->Err_0@ == ErrorView::UndefinedSymbol(name@),
    {
        global_or_undefined(module_get_global(&self.module, name), name)
    }

    /// The struct layout called `name` in the backend namespace.
    pub fn get_struct_type(&self, name: &str) -> (r: Result<StructType<'a>, CompileError>)
        ensures
            r is Err ==> r->Err_0@ == ErrorView::UndefinedType(name@),
    {
        layout_or_undefined(module_get_struct_type(&self.module, name), name)
    }

    /// The exports, in the order in which they were pushed.
    pub fn get_exports(&self) -> (exports: &Vec<Symbol>)
        ensures
            symbol_names(exports@) == self@.exports,
    {
        &self.exports
    }

    /// The type table, in declaration order.
    pub fn get_types(&self) -> (types: &Vec<DataType>)
        ensures
            datatype_views(types@) == self@.types,
    {
        &self.types
    }

    /// The type called `sym`.
    pub fn get_type(&self, sym: &str) -> (r: Result<&DataType, CompileError>)
        ensures
            match type_index(self@.types, sym@, 0) {
                Some(i) => r is Ok && r->Ok_0@ == self@.types[i],
                None => r is Err && r->Err_0@ == ErrorView::UndefinedType(sym@),
            },
    {
        let mut i: usize = 0;
        while i < self.types.len()
            invariant
                i <= self.types@.len(),
                type_index(self@.types, sym@, 0) == type_index(self@.types, sym@, i as int),
            decreases self.types@.len() - i,
        {
            if same_text(self.types[i].name().name(), sym) {
                return Ok(&self.types[i]);
            }
            i += 1;
        }
        Err(CompileError::UndefinedType(sym.to_owned()))
    }

    /// Whether the type table holds a type called `sym`.
    pub fn has_type(&self, sym: &str) -> (found: bool)
        ensures
            found == declares(self@.types, sym@),
    {
        self.get_type(sym).is_ok()
    }

    /// The 8-bit integer type.
    pub fn i8_type(&self) -> (ty: IntType<'a>)
        ensures
            int_type_width(ty) == 8,
    {
        context_i8_type(self.context)
    }

    /// The type of pointers to 8-bit integers.
    pub fn i8_ptr_type(&self) -> (ty: PointerType<'a>)
        ensures
            pointee_width(ty) == 8,
    {
        int_ptr_type(self.i8_type(), default_address_space())
    }

    /// The 32-bit integer type.
    pub fn i32_type(&self) -> (ty: IntType<'a>)
        ensures
            int_type_width(ty) == 32,
    {
        context_i32_type(self.context)
    }

    /// The type of pointers to 32-bit integers.
    pub fn i32_ptr_type(&self) -> (ty: PointerType<'a>)
        ensures
            pointee_width(ty) == 32,
    {
        int_ptr_type(self.i32_type(), default_address_space())
    }

    /// The 64-bit integer type.
    pub fn i64_type(&self) -> (ty: IntType<'a>)
        ensures
            int_type_width(ty) == 64,
    {
        context_i64_type(self.context)
    }

    /// The type of pointers to 64-bit integers.
    pub fn i64_ptr_type(&self) -> (ty: PointerType<'a>)
        ensures
            pointee_width(ty) == 64,
    {
        int_ptr_type(self.i64_type(), default_address_space())
    }

    /// Declares a type. A name that the table already holds is refused, and
    /// the table stays as it was.
    pub fn insert_type(&mut self, datatype: DataType) -> (r: Result<(), CompileError>)
        requires
            old(self).wf(),
        ensures
            final(self).output_routine() == old(self).output_routine(),
            final(self).wf(),
            final(self)@.name == old(self)@.name,
            final(self)@.exports == old(self)@.exports,
            final(self)@.functions == old(self)@.functions,
            final(self).context() == old(self).context(),
            declares(old(self)@.types, datatype@.name) ==> r is Err && r->Err_0@
                == ErrorView::DuplicateType(datatype@.name) && final(self)@.types == old(
                self,
            )@.types,
            !declares(old(self)@.types, datatype@.name) ==> r is Ok && final(self)@.types == old(
                self,
            )@.types.push(datatype@),
    {
        let name = datatype.name().name();
        if self.has_type(name) {
            return Err(CompileError::DuplicateType(name.to_owned()));
        }
        proof {
            lemma_type_index(self@.types, datatype@.name, 0);
        }
        self.types.push(datatype);
        assert(self@.types =~= old(self)@.types.push(datatype@));
        Ok(())
    }

    /// Whether `other` can be linked into this module: none of its exports
    /// may name a type that this module holds. The first export at fault
    /// decides the error.
    pub fn check_link(&self, other: &Module<'a>) -> (r: Result<(), CompileError>)
        ensures
            match first_conflict(self@.types, other@.exports, 0) {
                Some(i) => r is Err && r->Err_0@ == ErrorView::ConflictingType(other@.exports[i]),
                None => r is Ok,
            },
    {
        let mut i: usize = 0;
        while i < other.exports.len()
            invariant
                i <= other.exports@.len(),
                first_conflict(self@.types, other@.exports, 0) == first_conflict(
                    self@.types,
                    other@.exports,
                    i as int,
                ),
            decreases other.exports@.len() - i,
        {
            let export = other.exports[i].name();
            assert(export@ == other@.exports[i as int]);
            if self.has_type(export) {
                return Err(CompileError::ConflictingType(export.to_owned()));
            }
            i += 1;
        }
        Ok(())
    }

    /// Takes over the function table of `other`, behind the module's own.
    pub fn absorb_functions(&mut self, other: &Module<'a>)
        ensures
            final(self).output_routine() == old(self).output_routine(),
            final(self)@.name == old(self)@.name,
            final(self)@.exports == old(self)@.exports,
            final(self)@.types == old(self)@.types,
            final(self).context() == old(self).context(),
            final(self)@.functions == old(self)@.functions + other@.functions,
    {
        let mut i: usize = 0;
        while i < other.functions.len()
            invariant
                i <= other.functions@.len(),
                self@.name == old(self)@.name,
                self@.exports == old(self)@.exports,
                self@.types == old(self)@.types,
                self.context() == old(self).context(),
                self.output_routine() == old(self).output_routine(),
                self@.functions == old(self)@.functions + other@.functions.take(i as int),
            decreases other.functions@.len() - i,
        {
            let ghost before = self@.functions;
            let name = other.functions[i].0.clone();
            let signature = other.functions[i].1.clone();
            self.functions.push((name, signature));
            assert(self@.functions =~= before.push(other@.functions[i as int]));
            assert(self@.functions =~= old(self)@.functions + other@.functions.take(i + 1));
            i += 1;
        }
        assert(other@.functions.take(other@.functions.len() as int) =~= other@.functions);
    }

    /// Takes over the types that `other` exports: each is copied into the
    /// type table once, in export order.
    pub fn absorb_exports(&mut self, other: &Module<'a>)
        requires
            old(self).wf(),
        ensures
            final(self).output_routine() == old(self).output_routine(),
            final(self).wf(),
            final(self)@.name == old(self)@.name,
            final(self)@.exports == old(self)@.exports,
            final(self)@.functions == old(self)@.functions,
            final(self).context() == old(self).context(),
            final(self)@.types == linked_types(
                old(self)@.types,
                other@.types,
                other@.exports,
                other@.exports.len() as int,
            ),
    {
        let mut i: usize = 0;
        while i < other.exports.len()
            invariant
                i <= other.exports@.len(),
                self.wf(),
                self@.name == old(self)@.name,
                self@.exports == old(self)@.exports,
                self@.functions == old(self)@.functions,
                self.context() == old(self).context(),
                self.output_routine() == old(self).output_routine(),
                self@.types == linked_types(
                    old(self)@.types,
                    other@.types,
                    other@.exports,
                    i as int,
                ),
            decreases other.exports@.len() - i,
        {
            let export = other.exports[i].name();
            assert(export@ == other@.exports[i as int]);
            if !self.has_type(export) {
                match other.get_type(export) {
                    Ok(datatype) => {
                        let copy = datatype.clone();
                        proof {
                            lemma_type_index(self@.types, export@, 0);
                            lemma_type_index(other@.types, export@, 0);
                        }
                        let ghost before = self@.types;
                        self.types.push(copy);
                        assert(self@.types =~= before.push(copy@));
                    },
                    Err(_) => {},
                }
            }
            i += 1;
        }
    }

    /// Links `other` into this module. The link is refused, and this module
    /// left as it was, if an export of `other` names a type that this module
    /// holds, if the two modules live in different contexts, or if the
    /// backend cannot merge the two namespaces. Otherwise the exported types
    /// are taken over.
    pub fn link(&mut self, other: &Module<'a>) -> (r: Result<(), CompileError>)
        requires
            old(self).wf(),
        ensures
            final(self).output_routine() == old(self).output_routine(),
            final(self).wf(),
            final(self)@.name == old(self)@.name,
            final(self)@.exports == old(self)@.exports,
            r is Err ==> final(self)@ == old(self)@,
            r is Ok ==> final(self)@.types == linked_types(
                old(self)@.types,
                other@.types,
                other@.exports,
                other@.exports.len() as int,
            ),
            r is Ok ==> final(self)@.functions == old(self)@.functions + other@.functions,
            match first_conflict(old(self)@.types, other@.exports, 0) {
                Some(i) => r is Err && r->Err_0@ == ErrorView::ConflictingType(other@.exports[i]),
                None => r is Err ==> r->Err_0@ == ErrorView::Backend,
            },
            r is Ok ==> exists|copy: BackendModule<'a>|
                #![trigger linked_into(old(self).namespace(), copy)]
                copy_of(copy, other.namespace()) && linked_into(old(self).namespace(), copy),
    {
        match self.check_link(other) {
            Ok(()) => {},
            Err(e) => {
                return Err(e);
            },
        }
        if !same_context(self.context, other.context) {
            return Err(CompileError::Backend);
        }
        let copy = match module_checked_clone(&other.module) {
            Ok(copy) => copy,
            Err(_) => {
                return Err(CompileError::Backend);
            },
        };
        if !modules_share_context(&self.module, &copy) {
            return Err(CompileError::Backend);
        }
        let ghost merged = copy;
        match module_link_in(&self.module, copy) {
            Ok(()) => {},
            Err(_) => {
                return Err(CompileError::Backend);
            },
        }
        assert(copy_of(merged, other.namespace()) && linked_into(old(self).namespace(), merged));
        self.absorb_exports(other);
        self.absorb_functions(other);
        Ok(())
    }

    /// A copy of the module with a backend namespace of its own. The
    /// backend copies only a namespace that it finds valid.
    pub fn try_clone(&self) -> (r: Result<Module<'a>, CompileError>)
        ensures
            r is Ok ==> r->Ok_0@ == self@ && (self.wf() ==> r->Ok_0.wf()) && r->Ok_0.context()
                == self.context() && copy_of(r->Ok_0.namespace(), self.namespace()),
            r is Err ==> r->Err_0@ == ErrorView::Backend,
    {
        let backend = match module_checked_clone(&self.module) {
            Ok(copy) => copy,
            Err(_) => {
                return Err(CompileError::Backend);
            },
        };
        let mut exports: Vec<Symbol> = Vec::new();
        let mut i: usize = 0;
        while i < self.exports.len()
            invariant
                i <= self.exports@.len(),
                exports@.len() == i,
                forall|k: int| 0 <= k < i ==> exports@[k]@ == self.exports@[k]@,
            decreases self.exports@.len() - i,
        {
            exports.push(self.exports[i].clone());
            i += 1;
        }
        let mut types: Vec<DataType> = Vec::new();
        let mut j: usize = 0;
        while j < self.types.len()
            invariant
                j <= self.types@.len(),
                types@.len() == j,
                forall|k: int| 0 <= k < j ==> types@[k]@ == self.types@[k]@,
            decreases self.types@.len() - j,
        {
            types.push(self.types[j].clone());
            j += 1;
        }
        let mut functions: Vec<(Symbol, Signature)> = Vec::new();
        let mut n: usize = 0;
        while n < self.functions.len()
            invariant
                n <= self.functions@.len(),
                functions@.len() == n,
                forall|k: int|
                    0 <= k < n ==> functions@[k].0@ == self.functions@[k].0@ && functions@[k].1@
                        == self.functions@[k].1@,
            decreases self.functions@.len() - n,
        {
            functions.push((self.functions[n].0.clone(), self.functions[n].1.clone()));
            n += 1;
        }
        let routine = match find_output_routine(self.context, &backend) {
            Ok(routine) => routine,
            Err(_) => {
                return Err(CompileError::Backend);
            },
        };
        let copy = Module {
            context: self.context,
            exports,
            functions,
            module: backend,
            routine,
            name: self.name.clone(),
            types,
        };
        assert(copy@.types =~= self@.types);
        assert(copy@.exports =~= self@.exports);
        assert(copy@.functions =~= self@.functions);
        Ok(copy)
    }

    /// The backend namespace, for reading: to print it, to verify it, or to
    /// hand it to an execution engine. What is declared in it directly is
    /// no function of the function table.
    pub fn module(&self) -> (namespace: &BackendModule<'a>)
        ensures
            *namespace == self.namespace(),
    {
        &self.module
    }

    /// The module's name.
    pub fn name(&self) -> (name: Symbol)
        ensures
            name@ == self@.name,
    {
        self.name.clone()
    }

    /// The textual form of the backend namespace.
    pub fn print_to_string(&self) -> String {
        module_print_to_string(&self.module)
    }

    /// Appends a symbol to the export list.
    pub fn push_export(&mut self, sym: Symbol)
        ensures
            final(self).output_routine() == old(self).output_routine(),
            final(self)@.exports == old(self)@.exports.push(sym@),
            final(self)@.name == old(self)@.name,
            final(self)@.types == old(self)@.types,
            final(self)@.functions == old(self)@.functions,
    {
        self.exports.push(sym);
        assert(self@.exports =~= old(self)@.exports.push(sym@));
    }
}

} // verus!
